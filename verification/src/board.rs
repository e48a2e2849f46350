use vstd::prelude::*;

use crate::text::{chars_of, lemma_trim_twice, string_from_chars, trim, trim_chars};
use crate::version::{split_chars, split_on};

verus! {

/// Where a point copied from the game goes: your own position, or the target.
pub enum ClipUpdate {
    Own { x: String, y: String },
    Target { x: String, y: String },
}

/// The two numbers of a copied point such as `x12.34, y56.78`: the text after
/// `x` and after `y`, each trimmed; nothing unless the text, trimmed, is one
/// piece that starts with `x` and one that starts with `y`, apart by a comma,
/// and both numbers have text.
pub open spec fn spec_read_point(text: Seq<char>) -> Option<(Seq<char>, Seq<char>)> {
    let pieces = split_on(trim(text), ',');
    if pieces.len() != 2 {
        None
    } else {
        let first = trim(pieces[0]);
        let second = trim(pieces[1]);
        if first.len() > 0 && first[0] == 'x' && second.len() > 0 && second[0] == 'y' {
            let x = trim(first.drop_first());
            let y = trim(second.drop_first());
            if x.len() > 0 && y.len() > 0 {
                Some((x, y))
            } else {
                None
            }
        } else {
            None
        }
    }
}

fn tail_chars(v: &Vec<char>) -> (r: Vec<char>)
    requires
        v@.len() > 0,
    ensures
        r@ == v@.drop_first(),
{
    let mut out: Vec<char> = Vec::new();
    let n = v.len();
    let mut i: usize = 1;
    while i < n
        invariant
            n == v@.len(),
            1 <= i <= n,
            out@ == v@.subrange(1, i as int),
        decreases n - i,
    {
        out.push(v[i]);
        i = i + 1;
        assert(out@ =~= v@.subrange(1, i as int));
    }
    assert(out@ =~= v@.drop_first());
    out
}

/// Reads the two numbers of a copied point, as text.
pub fn read_point(text: &str) -> (r: Option<(String, String)>)
    ensures
        match r {
            Some((x, y)) => spec_read_point(text@) == Some((x@, y@)),
            None => spec_read_point(text@) is None,
        },
{
    let chars = chars_of(text);
    let trimmed = trim_chars(&chars);
    let pieces = split_chars(&trimmed, ',');
    if pieces.len() != 2 {
        return None;
    }
    proof {
        let views = pieces@.map_values(|p: Vec<char>| p@);
        assert(views[0] == pieces@[0]@);
        assert(views[1] == pieces@[1]@);
    }
    let first = trim_chars(&pieces[0]);
    let second = trim_chars(&pieces[1]);
    if first.len() == 0 || first[0] != 'x' || second.len() == 0 || second[0] != 'y' {
        return None;
    }
    let x = trim_chars(&tail_chars(&first));
    let y = trim_chars(&tail_chars(&second));
    if x.len() == 0 || y.len() == 0 {
        return None;
    }
    Some((string_from_chars(&x), string_from_chars(&y)))
}

/// What a copied point fills: your position while it is not yet set, the
/// target after that.
pub open spec fn spec_update_from_clip(own_locked: bool, text: Seq<char>) -> Option<
    (bool, Seq<char>, Seq<char>),
> {
    match spec_read_point(text) {
        None => None,
        Some((x, y)) => Some((!own_locked, x, y)),
    }
}

/// Reads a copied point and says which position it fills.
pub fn update_from_clip(own_locked: bool, text: &str) -> (r: Option<ClipUpdate>)
    ensures
        match r {
            Some(ClipUpdate::Own { x, y }) => spec_update_from_clip(own_locked, text@) == Some(
                (true, x@, y@),
            ),
            Some(ClipUpdate::Target { x, y }) => spec_update_from_clip(own_locked, text@) == Some(
                (false, x@, y@),
            ),
            None => spec_update_from_clip(own_locked, text@) is None,
        },
{
    match read_point(text) {
        None => None,
        Some((x, y)) => if own_locked {
            Some(ClipUpdate::Target { x, y })
        } else {
            Some(ClipUpdate::Own { x, y })
        },
    }
}

/// The board as the contracts speak of it.
pub struct BoardView {
    pub you_x: Seq<char>,
    pub you_y: Seq<char>,
    pub enemy_x: Seq<char>,
    pub enemy_y: Seq<char>,
    pub own_locked: bool,
    pub last_clip: Seq<char>,
}

/// The board after a copy of `raw`: a text already taken, or blank, changes
/// nothing; a text that is no point is only remembered; a point fills your
/// position (and empties the target) while that is not set, else the target.
pub open spec fn after_clip(b: BoardView, raw: Seq<char>) -> BoardView {
    let text = trim(raw);
    if text.len() == 0 || text == b.last_clip {
        b
    } else {
        match spec_read_point(text) {
            None => BoardView { last_clip: text, ..b },
            Some((x, y)) => if !b.own_locked {
                BoardView {
                    you_x: x,
                    you_y: y,
                    enemy_x: Seq::empty(),
                    enemy_y: Seq::empty(),
                    own_locked: true,
                    last_clip: text,
                }
            } else {
                BoardView { enemy_x: x, enemy_y: y, last_clip: text, ..b }
            },
        }
    }
}

/// Whether a copy of `raw` fills a position.
pub open spec fn clip_taken(b: BoardView, raw: Seq<char>) -> bool {
    let text = trim(raw);
    text.len() != 0 && text != b.last_clip && spec_read_point(text) is Some
}

/// The four coordinate fields and what the board remembers of the clipboard.
pub struct Board {
    you_x: String,
    you_y: String,
    enemy_x: String,
    enemy_y: String,
    own_locked: bool,
    last_clip: String,
}

impl View for Board {
    type V = BoardView;

    closed spec fn view(&self) -> BoardView {
        BoardView {
            you_x: self.you_x@,
            you_y: self.you_y@,
            enemy_x: self.enemy_x@,
            enemy_y: self.enemy_y@,
            own_locked: self.own_locked,
            last_clip: self.last_clip@,
        }
    }
}

/// The board with every field empty and nothing remembered.
pub open spec fn empty_board() -> BoardView {
    BoardView {
        you_x: Seq::empty(),
        you_y: Seq::empty(),
        enemy_x: Seq::empty(),
        enemy_y: Seq::empty(),
        own_locked: false,
        last_clip: Seq::empty(),
    }
}

impl Board {
    /// An empty board.
    pub fn new() -> (r: Self)
        ensures
            r@ == empty_board(),
    {
        Board {
            you_x: String::new(),
            you_y: String::new(),
            enemy_x: String::new(),
            enemy_y: String::new(),
            own_locked: false,
            last_clip: String::new(),
        }
    }

    /// The text of your X field.
    pub fn you_x(&self) -> (r: &str)
        ensures
            r@ == self@.you_x,
    {
        self.you_x.as_str()
    }

    /// The text of your Y field.
    pub fn you_y(&self) -> (r: &str)
        ensures
            r@ == self@.you_y,
    {
        self.you_y.as_str()
    }

    /// The text of the target X field.
    pub fn enemy_x(&self) -> (r: &str)
        ensures
            r@ == self@.enemy_x,
    {
        self.enemy_x.as_str()
    }

    /// The text of the target Y field.
    pub fn enemy_y(&self) -> (r: &str)
        ensures
            r@ == self@.enemy_y,
    {
        self.enemy_y.as_str()
    }

    /// Whether your own position is set, so that copies go to the target.
    pub fn own_locked(&self) -> (r: bool)
        ensures
            r == self@.own_locked,
    {
        self.own_locked
    }

    /// Empties every field, so that the next copied point sets your position.
    pub fn clear(&mut self)
        ensures
            final(self)@ == empty_board(),
    {
        self.you_x = String::new();
        self.you_y = String::new();
        self.enemy_x = String::new();
        self.enemy_y = String::new();
        self.own_locked = false;
        self.last_clip = String::new();
    }

    /// Takes in the text on the clipboard. Returns true when it filled a
    /// position; the caller then empties the clipboard.
    pub fn observe_clip(&mut self, raw: &str) -> (taken: bool)
        ensures
            taken == clip_taken(old(self)@, raw@),
            final(self)@ == after_clip(old(self)@, raw@),
    {
        let chars = chars_of(raw);
        let trimmed = trim_chars(&chars);
        let text = string_from_chars(&trimmed);
        if trimmed.len() == 0 || text == self.last_clip {
            return false;
        }
        match update_from_clip(self.own_locked, text.as_str()) {
            None => {
                proof {
                    lemma_trim_twice(raw@);
                }
                self.last_clip = text;
                false
            },
            Some(ClipUpdate::Own { x, y }) => {
                proof {
                    lemma_trim_twice(raw@);
                }
                self.you_x = x;
                self.you_y = y;
                self.enemy_x = String::new();
                self.enemy_y = String::new();
                self.own_locked = true;
                self.last_clip = text;
                true
            },
            Some(ClipUpdate::Target { x, y }) => {
                proof {
                    lemma_trim_twice(raw@);
                }
                self.enemy_x = x;
                self.enemy_y = y;
                self.last_clip = text;
                true
            },
        }
    }

    /// Forgets the last taken text, once the clipboard has been emptied.
    pub fn clip_cleared(&mut self)
        ensures
            final(self)@ == (BoardView { last_clip: Seq::empty(), ..old(self)@ }),
    {
        self.last_clip = String::new();
    }
}

/// A copy whose text is no point changes nothing on the board: your
/// position, the target and whether your position is set stay as they were.
pub proof fn lemma_non_point_changes_no_field(b: BoardView, raw: Seq<char>)
    requires
        spec_read_point(trim(raw)) is None,
    ensures
        after_clip(b, raw).you_x == b.you_x,
        after_clip(b, raw).you_y == b.you_y,
        after_clip(b, raw).enemy_x == b.enemy_x,
        after_clip(b, raw).enemy_y == b.enemy_y,
        after_clip(b, raw).own_locked == b.own_locked,
        !clip_taken(b, raw),
{
}

/// While your position is not set, a newly copied point sets it to the
/// point's two numbers and empties the target.
pub proof fn lemma_unlocked_point_sets_own(b: BoardView, raw: Seq<char>, x: Seq<char>, y: Seq<char>)
    requires
        !b.own_locked,
        trim(raw) != b.last_clip,
        spec_read_point(trim(raw)) == Some((x, y)),
    ensures
        clip_taken(b, raw),
        after_clip(b, raw).you_x == x,
        after_clip(b, raw).you_y == y,
        after_clip(b, raw).enemy_x.len() == 0,
        after_clip(b, raw).enemy_y.len() == 0,
        after_clip(b, raw).own_locked,
{
}

/// Once your position is set, copies never move it: only the target changes.
pub proof fn lemma_own_stays(b: BoardView, raw: Seq<char>)
    requires
        b.own_locked,
    ensures
        after_clip(b, raw).you_x == b.you_x,
        after_clip(b, raw).you_y == b.you_y,
        after_clip(b, raw).own_locked,
{
}

/// A text is taken once: copying the same text again changes nothing.
pub proof fn lemma_same_copy_once(b: BoardView, raw: Seq<char>)
    requires
        clip_taken(b, raw),
    ensures
        after_clip(after_clip(b, raw), raw) == after_clip(b, raw),
        !clip_taken(after_clip(b, raw), raw),
{
}

/// After a clear, the next point copied sets your position and empties the target.
pub proof fn lemma_clear_then_own(raw: Seq<char>)
    requires
        spec_read_point(trim(raw)) is Some,
    ensures
        after_clip(empty_board(), raw).own_locked,
        spec_read_point(trim(raw)) matches Some((x, y)) ==> after_clip(empty_board(), raw).you_x
            == x && after_clip(empty_board(), raw).you_y == y,
        after_clip(empty_board(), raw).enemy_x.len() == 0,
{
}

} // verus!
