use vstd::prelude::*;

use crate::text::{append_str, chars_of, decimal, digit_char, is_blank, push_char, push_decimal, trim};

verus! {

/// One of the four coordinate fields of the board.
#[derive(Clone, Copy, Debug, PartialEq, Eq, Structural)]
pub enum CoordField {
    YouX,
    YouY,
    EnemyX,
    EnemyY,
}

/// The label that the board shows for a field.
pub open spec fn spec_label(field: CoordField) -> Seq<char> {
    match field {
        CoordField::YouX => "Your X"@,
        CoordField::YouY => "Your Y"@,
        CoordField::EnemyX => "Target X"@,
        CoordField::EnemyY => "Target Y"@,
    }
}

impl CoordField {
    /// The label that the board shows for this field.
    pub fn label(self) -> (r: &'static str)
        ensures
            r@ == spec_label(self),
    {
        match self {
            CoordField::YouX => "Your X",
            CoordField::YouY => "Your Y",
            CoordField::EnemyX => "Target X",
            CoordField::EnemyY => "Target Y",
        }
    }
}

/// What a coordinate field holds: nothing but white space, text that does not
/// read as a finite number, or a finite number.
#[derive(Clone, Copy, Debug, PartialEq, Eq, Structural)]
pub enum FieldText {
    Empty,
    Unreadable,
    Number,
}

/// Sorts the text of a field: `Empty` when it is blank once trimmed, else
/// `Number` or `Unreadable` as `reads_as_number` (the trimmed text read as a
/// finite number) says.
pub fn field_text(text: &str, reads_as_number: bool) -> (r: FieldText)
    ensures
        r == (if trim(text@).len() == 0 {
            FieldText::Empty
        } else if reads_as_number {
            FieldText::Number
        } else {
            FieldText::Unreadable
        }),
{
    if is_blank(text) {
        FieldText::Empty
    } else if reads_as_number {
        FieldText::Number
    } else {
        FieldText::Unreadable
    }
}

/// What the board can tell from its four fields.
#[derive(Clone, Copy, Debug, PartialEq, Eq, Structural)]
pub enum BoardStatus {
    /// A field is still empty: the first empty one.
    Need(CoordField),
    /// A field holds text that is no number: the first such one.
    Fault(CoordField),
    /// All four fields hold numbers.
    Ready,
}

/// The board's status: a field that does not read wins over an empty one,
/// and of several the first in the order your X, your Y, target X, target Y.
pub open spec fn spec_board_status(
    you_x: FieldText,
    you_y: FieldText,
    enemy_x: FieldText,
    enemy_y: FieldText,
) -> BoardStatus {
    if you_x == FieldText::Unreadable {
        BoardStatus::Fault(CoordField::YouX)
    } else if you_y == FieldText::Unreadable {
        BoardStatus::Fault(CoordField::YouY)
    } else if enemy_x == FieldText::Unreadable {
        BoardStatus::Fault(CoordField::EnemyX)
    } else if enemy_y == FieldText::Unreadable {
        BoardStatus::Fault(CoordField::EnemyY)
    } else if you_x == FieldText::Empty {
        BoardStatus::Need(CoordField::YouX)
    } else if you_y == FieldText::Empty {
        BoardStatus::Need(CoordField::YouY)
    } else if enemy_x == FieldText::Empty {
        BoardStatus::Need(CoordField::EnemyX)
    } else if enemy_y == FieldText::Empty {
        BoardStatus::Need(CoordField::EnemyY)
    } else {
        BoardStatus::Ready
    }
}

/// The field at place `i` in the order your X, your Y, target X, target Y.
pub open spec fn field_at(i: int) -> CoordField {
    if i == 0 {
        CoordField::YouX
    } else if i == 1 {
        CoordField::YouY
    } else if i == 2 {
        CoordField::EnemyX
    } else {
        CoordField::EnemyY
    }
}

/// A board is ready exactly when all four fields hold numbers.
pub proof fn lemma_board_ready_iff_all_numbers(texts: Seq<FieldText>)
    requires
        texts.len() == 4,
    ensures
        (spec_board_status(texts[0], texts[1], texts[2], texts[3]) == BoardStatus::Ready) <==> (
        forall|i: int| 0 <= i < 4 ==> #[trigger] texts[i] == FieldText::Number),
{
    if spec_board_status(texts[0], texts[1], texts[2], texts[3]) == BoardStatus::Ready {
        assert forall|i: int| 0 <= i < 4 implies #[trigger] texts[i] == FieldText::Number by {
            assert(i == 0 || i == 1 || i == 2 || i == 3);
        }
    }
    if forall|i: int| 0 <= i < 4 ==> #[trigger] texts[i] == FieldText::Number {
        assert(texts[0] == FieldText::Number);
        assert(texts[1] == FieldText::Number);
        assert(texts[2] == FieldText::Number);
        assert(texts[3] == FieldText::Number);
    }
}

/// Where the field at place `i` does not read and none before it fails to
/// read, the board reports a fault at that field, whatever the others hold.
pub proof fn lemma_board_faults_first_unreadable(texts: Seq<FieldText>, i: int)
    requires
        texts.len() == 4,
        0 <= i < 4,
        texts[i] == FieldText::Unreadable,
        forall|j: int| 0 <= j < i ==> texts[j] != FieldText::Unreadable,
    ensures
        spec_board_status(texts[0], texts[1], texts[2], texts[3]) == BoardStatus::Fault(field_at(i)),
{
    if i > 0 {
        assert(texts[0] != FieldText::Unreadable);
    }
    if i > 1 {
        assert(texts[1] != FieldText::Unreadable);
    }
    if i > 2 {
        assert(texts[2] != FieldText::Unreadable);
    }
}

/// Where every field reads, and the field at place `i` is the first empty
/// one, the board waits for that field.
pub proof fn lemma_board_needs_first_empty(texts: Seq<FieldText>, i: int)
    requires
        texts.len() == 4,
        0 <= i < 4,
        texts[i] == FieldText::Empty,
        forall|j: int| 0 <= j < 4 ==> texts[j] != FieldText::Unreadable,
        forall|j: int| 0 <= j < i ==> texts[j] != FieldText::Empty,
    ensures
        spec_board_status(texts[0], texts[1], texts[2], texts[3]) == BoardStatus::Need(field_at(i)),
{
    assert(texts[0] != FieldText::Unreadable);
    assert(texts[1] != FieldText::Unreadable);
    assert(texts[2] != FieldText::Unreadable);
    assert(texts[3] != FieldText::Unreadable);
    if i > 0 {
        assert(texts[0] != FieldText::Empty);
    }
    if i > 1 {
        assert(texts[1] != FieldText::Empty);
    }
    if i > 2 {
        assert(texts[2] != FieldText::Empty);
    }
}

/// Reads the board: goes through the fields in order, remembers the first
/// empty one and stops at the first that does not read.
pub fn board_status(you_x: FieldText, you_y: FieldText, enemy_x: FieldText, enemy_y: FieldText) -> (r:
    BoardStatus)
    ensures
        r == spec_board_status(you_x, you_y, enemy_x, enemy_y),
{
    let fields = [CoordField::YouX, CoordField::YouY, CoordField::EnemyX, CoordField::EnemyY];
    let texts = [you_x, you_y, enemy_x, enemy_y];
    let mut empty: Option<CoordField> = None;
    let mut index: usize = 0;
    while index < 4
        invariant
            index <= 4,
            fields@ == seq![CoordField::YouX, CoordField::YouY, CoordField::EnemyX, CoordField::EnemyY],
            texts@ == seq![you_x, you_y, enemy_x, enemy_y],
            forall|j: int| 0 <= j < index ==> texts@[j] != FieldText::Unreadable,
            match empty {
                None => forall|j: int| 0 <= j < index ==> texts@[j] != FieldText::Empty,
                Some(f) => exists|j: int|
                    0 <= j < index && texts@[j] == FieldText::Empty && fields@[j] == f && forall|
                        k: int,
                    | 0 <= k < j ==> texts@[k] != FieldText::Empty,
            },
        decreases 4 - index,
    {
        let text = texts[index];
        if text == FieldText::Unreadable {
            return BoardStatus::Fault(fields[index]);
        }
        if text == FieldText::Empty && empty.is_none() {
            empty = Some(fields[index]);
        }
        index = index + 1;
    }
    match empty {
        Some(field) => BoardStatus::Need(field),
        None => BoardStatus::Ready,
    }
}

/// How a count of hundredths prints, as `format_number` shows a value rounded
/// to hundredths: no decimals on a whole number, else the decimals without
/// trailing zeros, and a minus sign before a negative value.
pub open spec fn spec_format_hundredths(h: int) -> Seq<char> {
    let a: nat = if h < 0 {
        (-h) as nat
    } else {
        h as nat
    };
    let sign = if h < 0 {
        seq!['-']
    } else {
        Seq::<char>::empty()
    };
    sign + spec_unsigned_hundredths(a)
}

/// How a count `a` of hundredths prints without its sign.
pub open spec fn spec_unsigned_hundredths(a: nat) -> Seq<char> {
    let whole = decimal(a / 100);
    let frac = a % 100;
    if frac == 0 {
        whole
    } else if frac % 10 == 0 {
        whole + seq!['.', digit_char(frac / 10)]
    } else {
        whole + seq!['.', digit_char(frac / 10), digit_char(frac % 10)]
    }
}

fn push_unsigned_hundredths(s: &mut String, a: u64)
    ensures
        final(s)@ == old(s)@ + spec_unsigned_hundredths(a as nat),
{
    let ghost start = s@;
    push_decimal(s, a / 100);
    let frac = a % 100;
    if frac != 0 {
        push_char(s, '.');
        let tens = (48u8 + (frac / 10) as u8) as char;
        assert(tens == digit_char((frac / 10) as nat));
        push_char(s, tens);
        if frac % 10 != 0 {
            let ones = (48u8 + (frac % 10) as u8) as char;
            assert(ones == digit_char((frac % 10) as nat));
            push_char(s, ones);
        }
    }
    assert(s@ =~= start + spec_unsigned_hundredths(a as nat));
}

fn push_hundredths(s: &mut String, h: i64)
    ensures
        final(s)@ == old(s)@ + spec_format_hundredths(h as int),
{
    let ghost start = s@;
    let a: u64 = if h < 0 {
        (-(h + 1)) as u64 + 1
    } else {
        h as u64
    };
    if h < 0 {
        push_char(s, '-');
    }
    push_unsigned_hundredths(s, a);
    assert(s@ =~= start + spec_format_hundredths(h as int));
}

/// Prints a value given in hundredths, such as a range of `50000` hundredths
/// of a meter as `500` and `14142` as `141.42`.
pub fn format_hundredths(h: i64) -> (r: String)
    ensures
        r@ == spec_format_hundredths(h as int),
{
    let mut s = String::new();
    push_hundredths(&mut s, h);
    assert(s@ =~= spec_format_hundredths(h as int));
    s
}

/// A height difference as printed: `+` or `-` (`negative`), then its size,
/// given in hundredths of a meter, printed as `format_hundredths` prints it.
pub open spec fn spec_format_delta(negative: bool, magnitude: u64) -> Seq<char> {
    (if negative {
        seq!['-']
    } else {
        seq!['+']
    }) + spec_unsigned_hundredths(magnitude as nat)
}

/// Prints a height difference with its sign always shown.
pub fn format_delta(negative: bool, magnitude: u64) -> (r: String)
    ensures
        r@ == spec_format_delta(negative, magnitude),
{
    let mut s = String::new();
    if negative {
        push_char(&mut s, '-');
    } else {
        push_char(&mut s, '+');
    }
    push_unsigned_hundredths(&mut s, magnitude);
    assert(s@ =~= spec_format_delta(negative, magnitude));
    s
}

/// The headline of the range well: the range in meters with an `m`, or
/// `STANDBY` while a field is empty, or `FAULT` while one does not read.
pub open spec fn spec_range_label(status: BoardStatus, meters_hundredths: i64) -> Seq<char> {
    match status {
        BoardStatus::Ready => spec_format_hundredths(meters_hundredths as int) + seq!['m'],
        BoardStatus::Need(_) => "STANDBY"@,
        BoardStatus::Fault(_) => "FAULT"@,
    }
}

/// Builds the headline of the range well; `meters_hundredths` is the range,
/// rounded to hundredths of a meter, when the board is ready.
pub fn range_label(status: BoardStatus, meters_hundredths: i64) -> (r: String)
    ensures
        r@ == spec_range_label(status, meters_hundredths),
{
    match status {
        BoardStatus::Ready => {
            let mut s = String::new();
            push_hundredths(&mut s, meters_hundredths);
            push_char(&mut s, 'm');
            assert(s@ =~= spec_range_label(status, meters_hundredths));
            s
        },
        BoardStatus::Need(_) => {
            let mut s = String::new();
            append_str(&mut s, "STANDBY");
            assert(s@ =~= spec_range_label(status, meters_hundredths));
            s
        },
        BoardStatus::Fault(_) => {
            let mut s = String::new();
            append_str(&mut s, "FAULT");
            assert(s@ =~= spec_range_label(status, meters_hundredths));
            s
        },
    }
}

/// A compass bearing in whole degrees as the range well shows it under the
/// range: at least three digits, zero-padded, then the degree sign, so that
/// east reads `090°`.
pub open spec fn spec_format_bearing(degrees: u32) -> Seq<char> {
    (if degrees < 10 {
        seq!['0', '0']
    } else if degrees < 100 {
        seq!['0']
    } else {
        Seq::<char>::empty()
    }) + decimal(degrees as nat) + seq!['\u{B0}']
}

/// Prints a compass bearing given in whole degrees.
pub fn format_bearing(degrees: u32) -> (r: String)
    ensures
        r@ == spec_format_bearing(degrees),
{
    let mut s = String::new();
    if degrees < 10 {
        push_char(&mut s, '0');
        push_char(&mut s, '0');
    } else if degrees < 100 {
        push_char(&mut s, '0');
    }
    push_decimal(&mut s, degrees as u64);
    push_char(&mut s, '\u{B0}');
    assert(s@ =~= spec_format_bearing(degrees));
    s
}

/// The headline depends only on the kind of status: any wait reads
/// `STANDBY` and any fault `FAULT`, whichever field it names and whatever the
/// range; a ready board shows the range and ends in `m`.
pub proof fn lemma_headline_by_kind(field: CoordField, meters_hundredths: i64)
    ensures
        spec_range_label(BoardStatus::Need(field), meters_hundredths) == "STANDBY"@,
        spec_range_label(BoardStatus::Fault(field), meters_hundredths) == "FAULT"@,
        spec_range_label(BoardStatus::Ready, meters_hundredths).last() == 'm',
{
}

/// `s` without its trailing `'m'`s, as `trim_end_matches('m')` leaves it.
pub open spec fn strip_trailing_m(s: Seq<char>) -> Seq<char>
    decreases s.len(),
{
    if s.len() > 0 && s.last() == 'm' {
        strip_trailing_m(s.drop_last())
    } else {
        s
    }
}

pub open spec fn is_number_char(c: char) -> bool {
    ('0' <= c <= '9') || c == '.' || c == '-'
}

/// Whether a headline reads as a number of meters: it ends in `m`, and before
/// its trailing `m`s stand only digits, dots and minus signs.
pub open spec fn is_meters_label(label: Seq<char>) -> bool {
    &&& label.len() > 0
    &&& label.last() == 'm'
    &&& forall|i: int|
        0 <= i < strip_trailing_m(label).len() ==> is_number_char(
            #[trigger] strip_trailing_m(label)[i],
        )
}

/// The type size, in points before the well's scaling, for a headline: large
/// for a short number, smaller for a longer one, smallest for a word.
pub open spec fn spec_label_points(label: Seq<char>) -> u32 {
    if is_meters_label(label) {
        if label.len() <= 6 {
            72
        } else if label.len() <= 9 {
            56
        } else {
            40
        }
    } else {
        34
    }
}

/// Picks the type size for a headline of the range well.
pub fn label_points(label: &str) -> (r: u32)
    ensures
        r == spec_label_points(label@),
{
    let chars = chars_of(label);
    let n = chars.len();
    if n == 0 || chars[n - 1] != 'm' {
        return 34;
    }
    let mut end: usize = n;
    assert(chars@.subrange(0, n as int) =~= chars@);
    while end > 0 && chars[end - 1] == 'm'
        invariant
            n == chars@.len(),
            chars@ == label@,
            end <= n,
            strip_trailing_m(label@) == strip_trailing_m(chars@.subrange(0, end as int)),
        decreases end,
    {
        assert(chars@.subrange(0, end as int).drop_last() =~= chars@.subrange(0, end - 1));
        end = end - 1;
    }
    let ghost digits = chars@.subrange(0, end as int);
    assert(strip_trailing_m(digits) == digits);
    let mut i: usize = 0;
    while i < end
        invariant
            n == chars@.len(),
            chars@ == label@,
            end <= n,
            digits == chars@.subrange(0, end as int),
            strip_trailing_m(label@) == digits,
            label@.len() > 0,
            label@.last() == 'm',
            i <= end,
            forall|j: int| 0 <= j < i ==> is_number_char(#[trigger] digits[j]),
        decreases end - i,
    {
        let c = chars[i];
        if !(('0' <= c && c <= '9') || c == '.' || c == '-') {
            assert(digits[i as int] == c);
            return 34;
        }
        i = i + 1;
    }
    if n <= 6 {
        72
    } else if n <= 9 {
        56
    } else {
        40
    }
}

} // verus!
