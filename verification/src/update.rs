use vstd::prelude::*;

use crate::text::{append_str, chars_of, decimal, push_char, push_decimal, same_text};
use crate::version::{is_newer, spec_is_newer};

verus! {

/// Milliseconds from the start before the first look for a release: eight seconds.
pub const CHECK_AFTER_MS: u64 = 8_000;

/// Milliseconds between two looks for a release: six hours.
pub const CHECK_EVERY_MS: u64 = 21_600_000;

/// Size in bytes below which a downloaded build is taken for a broken download.
pub const MIN_BUILD_BYTES: u64 = 1_000_000;

/// The file name of the release asset built for this platform.
pub open spec fn spec_asset_name(windows: bool) -> Seq<char> {
    if windows {
        "wardogs-arty-buddy-windows-x86_64.exe"@
    } else {
        "wardogs-arty-buddy-linux-x86_64"@
    }
}

/// The name of the release asset that holds the build for Windows
/// (`windows`) or for Linux.
pub fn asset_name(windows: bool) -> (r: &'static str)
    ensures
        r@ == spec_asset_name(windows),
{
    if windows {
        "wardogs-arty-buddy-windows-x86_64.exe"
    } else {
        "wardogs-arty-buddy-linux-x86_64"
    }
}

/// One downloadable file of a release, as the release listing describes it:
/// a field is `None` where the listing has no text there.
pub struct Asset {
    pub name: Option<String>,
    pub download_url: Option<String>,
}

/// The parts of a release listing that an update reads: its tag and its files.
/// A field is `None` where the listing has no text, or no list, there.
pub struct Release {
    pub tag_name: Option<String>,
    pub assets: Option<Vec<Asset>>,
}

/// The download address of the first asset named `name` that has one.
pub open spec fn first_url(assets: Seq<Asset>, name: Seq<char>) -> Option<Seq<char>>
    decreases assets.len(),
{
    if assets.len() == 0 {
        None
    } else if assets[0].name matches Some(n) && n@ == name && assets[0].download_url is Some {
        Some(assets[0].download_url->0@)
    } else {
        first_url(assets.drop_first(), name)
    }
}

/// Where to download the update from: only when the release is tagged with
/// a version newer than `current`, the address of its first asset named `asset`
/// that has one.
pub open spec fn spec_update_url(release: Release, current: Seq<char>, asset: Seq<char>) -> Option<
    Seq<char>,
> {
    match release.tag_name {
        None => None,
        Some(tag) => if !spec_is_newer(tag@, current) {
            None
        } else {
            match release.assets {
                None => None,
                Some(list) => first_url(list@, asset),
            }
        },
    }
}

/// Picks the download of a newer build out of a release listing: `None` unless
/// the release's tag is newer than `current` and an asset named `asset` has an address.
pub fn update_download_url(release: &Release, current: &str, asset: &str) -> (r: Option<String>)
    ensures
        match r {
            Some(url) => spec_update_url(*release, current@, asset@) == Some(url@),
            None => spec_update_url(*release, current@, asset@) is None,
        },
{
    let tag = match &release.tag_name {
        None => return None,
        Some(tag) => tag,
    };
    if !is_newer(tag.as_str(), current) {
        return None;
    }
    let list = match &release.assets {
        None => return None,
        Some(list) => list,
    };
    let n = list.len();
    let mut i: usize = 0;
    assert(list@.subrange(0, n as int) =~= list@);
    while i < n
        invariant
            n == list@.len(),
            i <= n,
            spec_update_url(*release, current@, asset@) == first_url(list@, asset@),
            first_url(list@, asset@) == first_url(list@.subrange(i as int, n as int), asset@),
        decreases n - i,
    {
        let item = &list[i];
        let ghost rest = list@.subrange(i as int, n as int);
        assert(rest[0] == list@[i as int]);
        assert(rest.drop_first() =~= list@.subrange(i + 1, n as int));
        if let Some(name) = &item.name {
            if same_text(name.as_str(), asset) {
                if let Some(url) = &item.download_url {
                    return Some(url.clone());
                }
            }
        }
        i = i + 1;
    }
    None
}

/// The text of an optional `String`.
pub open spec fn text_view(t: Option<String>) -> Option<Seq<char>> {
    match t {
        Some(s) => Some(s@),
        None => None,
    }
}

/// An asset as its name and download address.
pub open spec fn asset_view(a: Asset) -> (Option<Seq<char>>, Option<Seq<char>>) {
    (text_view(a.name), text_view(a.download_url))
}

/// A release listing as its tag and the name and address of each asset.
pub open spec fn release_view(r: Release) -> (
    Option<Seq<char>>,
    Option<Seq<(Option<Seq<char>>, Option<Seq<char>>)>>,
) {
    (
        text_view(r.tag_name),
        match r.assets {
            Some(list) => Some(list@.map_values(|a: Asset| asset_view(a))),
            None => None,
        },
    )
}

/// What the release listing in the JSON text `body` says: its `tag_name`, and
/// the `name` and `browser_download_url` of each entry of its `assets`, each
/// where it is a string; nothing where `body` is not JSON.
pub uninterp spec fn json_listing(body: Seq<char>) -> Option<
    (Option<Seq<char>>, Option<Seq<(Option<Seq<char>>, Option<Seq<char>>)>>),
>;

/// Reads a release listing out of the JSON text `body`, with
/// `serde_json::from_str` into a `serde_json::Value`, then takes the
/// `tag_name` and, from each entry of the `assets` array, the `name` and
/// `browser_download_url`, each only where it is a JSON string. Trusted:
/// that the result is what `json_listing` names for `body`, and that it is
/// nothing exactly when `serde_json` refuses the text; what `json_listing`
/// is on a given text is left to `serde_json`.
#[verifier::external_body]
pub fn release_from_json(body: &str) -> (r: Option<Release>)
    ensures
        match r {
            Some(rel) => json_listing(body@) == Some(release_view(rel)),
            None => json_listing(body@) is None,
        },
{
    let json: serde_json::Value = serde_json::from_str(body).ok()?;
    let text = |v: &serde_json::Value, key: &str| v.get(key).and_then(|t| t.as_str()).map(str::to_owned);
    let assets = json.get("assets").and_then(|a| a.as_array());
    Some(Release {
        tag_name: text(&json, "tag_name"),
        assets: assets.map(|list| {
            list.iter().map(|a| Asset { name: text(a, "name"), download_url: text(a, "browser_download_url") }).collect()
        }),
    })
}

/// The address of the first listed asset named `name` that has one.
pub open spec fn first_listed_url(
    assets: Seq<(Option<Seq<char>>, Option<Seq<char>>)>,
    name: Seq<char>,
) -> Option<Seq<char>>
    decreases assets.len(),
{
    if assets.len() == 0 {
        None
    } else if assets[0].0 == Some(name) && assets[0].1 is Some {
        assets[0].1
    } else {
        first_listed_url(assets.drop_first(), name)
    }
}

/// Where to download the update from, read off a release listing: only for a
/// tag newer than `current`, the first asset named `asset` with an address.
pub open spec fn listing_url(
    listing: (Option<Seq<char>>, Option<Seq<(Option<Seq<char>>, Option<Seq<char>>)>>),
    current: Seq<char>,
    asset: Seq<char>,
) -> Option<Seq<char>> {
    match listing.0 {
        None => None,
        Some(tag) => if !spec_is_newer(tag, current) {
            None
        } else {
            match listing.1 {
                None => None,
                Some(list) => first_listed_url(list, asset),
            }
        },
    }
}

proof fn lemma_first_url_listed(assets: Seq<Asset>, name: Seq<char>)
    ensures
        first_url(assets, name) == first_listed_url(
            assets.map_values(|a: Asset| asset_view(a)),
            name,
        ),
    decreases assets.len(),
{
    let views = assets.map_values(|a: Asset| asset_view(a));
    if assets.len() > 0 {
        assert(views[0] == asset_view(assets[0]));
        assert(views.drop_first() =~= assets.drop_first().map_values(|a: Asset| asset_view(a)));
        lemma_first_url_listed(assets.drop_first(), name);
    }
}

/// The update address that a release listing gives is the one its view gives.
pub proof fn lemma_update_url_of_view(release: Release, current: Seq<char>, asset: Seq<char>)
    ensures
        spec_update_url(release, current, asset) == listing_url(release_view(release), current, asset),
{
    if let Some(list) = release.assets {
        lemma_first_url_listed(list@, asset);
    }
}

/// Picks the download of a newer build out of the JSON text of the latest
/// release: nothing when `body` is no JSON, when its tag is not newer than
/// `current`, or when no asset named `asset` has an address.
pub fn update_url_from_body(body: &str, current: &str, asset: &str) -> (r: Option<String>)
    ensures
        match json_listing(body@) {
            None => r is None,
            Some(listing) => text_view(r) == listing_url(listing, current@, asset@),
        },
{
    let release = match release_from_json(body) {
        None => return None,
        Some(release) => release,
    };
    let r = update_download_url(&release, current, asset);
    proof {
        lemma_update_url_of_view(release, current@, asset@);
    }
    r
}

/// Whether asset `a` is named `name` and has an address.
pub open spec fn offers(a: Asset, name: Seq<char>) -> bool {
    a.name matches Some(n) && n@ == name && a.download_url is Some
}

proof fn lemma_first_url_finds(assets: Seq<Asset>, name: Seq<char>, i: int)
    requires
        0 <= i < assets.len(),
        offers(assets[i], name),
        forall|j: int| 0 <= j < i ==> !offers(#[trigger] assets[j], name),
    ensures
        first_url(assets, name) == Some(assets[i].download_url->0@),
    decreases i,
{
    if i > 0 {
        assert(!offers(assets[0], name));
        let rest = assets.drop_first();
        assert forall|j: int| 0 <= j < i - 1 implies !offers(#[trigger] rest[j], name) by {
            assert(rest[j] == assets[j + 1]);
        }
        lemma_first_url_finds(rest, name, i - 1);
    }
}

/// A release tagged newer than `current` is offered: the address of the
/// first asset named `asset` that has one.
pub proof fn lemma_newer_release_offered(release: Release, current: Seq<char>, asset: Seq<char>, i: int)
    requires
        release.tag_name matches Some(tag) && spec_is_newer(tag@, current),
        release.assets is Some,
        0 <= i < release.assets->0@.len(),
        offers(release.assets->0@[i], asset),
        forall|j: int| 0 <= j < i ==> !offers(#[trigger] release.assets->0@[j], asset),
    ensures
        spec_update_url(release, current, asset) == Some(release.assets->0@[i].download_url->0@),
{
    lemma_first_url_finds(release.assets->0@, asset, i);
}

/// A release tagged newer than `current` whose listing is read from JSON is
/// offered: the address of the first asset named `asset` that has one.
pub proof fn lemma_newer_listing_offered(
    listing: (Option<Seq<char>>, Option<Seq<(Option<Seq<char>>, Option<Seq<char>>)>>),
    current: Seq<char>,
    asset: Seq<char>,
    i: int,
)
    requires
        listing.0 matches Some(tag) && spec_is_newer(tag, current),
        listing.1 is Some,
        0 <= i < listing.1->0.len(),
        listing.1->0[i].0 == Some(asset),
        listing.1->0[i].1 is Some,
        forall|j: int|
            0 <= j < i ==> !(#[trigger] listing.1->0[j].0 == Some(asset) && listing.1->0[j].1 is Some),
    ensures
        listing_url(listing, current, asset) == listing.1->0[i].1,
{
    lemma_first_listed_finds(listing.1->0, asset, i);
}

proof fn lemma_first_listed_finds(
    assets: Seq<(Option<Seq<char>>, Option<Seq<char>>)>,
    name: Seq<char>,
    i: int,
)
    requires
        0 <= i < assets.len(),
        assets[i].0 == Some(name),
        assets[i].1 is Some,
        forall|j: int| 0 <= j < i ==> !(#[trigger] assets[j].0 == Some(name) && assets[j].1 is Some),
    ensures
        first_listed_url(assets, name) == assets[i].1,
    decreases i,
{
    if i > 0 {
        assert(!(assets[0].0 == Some(name) && assets[0].1 is Some));
        let rest = assets.drop_first();
        assert forall|j: int| 0 <= j < i - 1 implies !(#[trigger] rest[j].0 == Some(name) && rest[j].1 is Some) by {
            assert(rest[j] == assets[j + 1]);
        }
        lemma_first_listed_finds(rest, name, i - 1);
    }
}

/// An update is offered only for a release whose tag is newer than the
/// running version.
pub proof fn lemma_update_only_when_newer(release: Release, current: Seq<char>, asset: Seq<char>)
    requires
        spec_update_url(release, current, asset) is Some,
    ensures
        release.tag_name matches Some(tag) && spec_is_newer(tag@, current),
{
}

/// Whether a downloaded build of `len` bytes is kept: a smaller file is a
/// broken download and is thrown away.
pub fn accept_download(len: u64) -> (r: bool)
    ensures
        r == (len >= MIN_BUILD_BYTES),
{
    len >= MIN_BUILD_BYTES
}

/// The state of the update schedule, as the contracts speak of it.
pub struct ScheduleView {
    /// A look for a release is under way.
    pub running: bool,
    /// When the last look started, in milliseconds since the start.
    pub last_check_ms: u64,
    /// A look has started at least once.
    pub started_once: bool,
}

/// Whether a look for a release is due at `now`: eight seconds after the start
/// for the first, six hours after the last for the others.
pub open spec fn check_due(s: ScheduleView, now: u64) -> bool {
    if s.started_once {
        now >= s.last_check_ms && now - s.last_check_ms >= CHECK_EVERY_MS
    } else {
        now >= CHECK_AFTER_MS
    }
}

/// The schedule after a poll at `now`: a look starts where none is under way
/// and one is due.
pub open spec fn after_poll(s: ScheduleView, now: u64) -> ScheduleView {
    if !s.running && check_due(s, now) {
        ScheduleView { running: true, last_check_ms: now, started_once: true }
    } else {
        s
    }
}

/// The schedule after the look under way has ended.
pub open spec fn after_finish(s: ScheduleView) -> ScheduleView {
    ScheduleView { running: false, ..s }
}

/// When to look for a newer release: at most one look at a time, the first
/// shortly after the start, the next ones six hours apart.
pub struct UpdateCheck {
    running: bool,
    last_check_ms: u64,
    started_once: bool,
}

impl View for UpdateCheck {
    type V = ScheduleView;

    closed spec fn view(&self) -> ScheduleView {
        ScheduleView {
            running: self.running,
            last_check_ms: self.last_check_ms,
            started_once: self.started_once,
        }
    }
}

impl UpdateCheck {
    /// A schedule that has not looked yet.
    pub fn new() -> (r: Self)
        ensures
            r@ == (ScheduleView { running: false, last_check_ms: 0, started_once: false }),
    {
        UpdateCheck { running: false, last_check_ms: 0, started_once: false }
    }

    /// Whether a look is under way.
    pub fn is_running(&self) -> (r: bool)
        ensures
            r == self@.running,
    {
        self.running
    }

    /// Polls the schedule at `now` (milliseconds since the start). Returns true
    /// when a look for a release starts now; the caller then starts it.
    pub fn poll(&mut self, now_ms: u64) -> (r: bool)
        ensures
            r == (!old(self)@.running && check_due(old(self)@, now_ms)),
            final(self)@ == after_poll(old(self)@, now_ms),
    {
        if self.running {
            return false;
        }
        let due = if self.started_once {
            now_ms >= self.last_check_ms && now_ms - self.last_check_ms >= CHECK_EVERY_MS
        } else {
            now_ms >= CHECK_AFTER_MS
        };
        if due {
            self.started_once = true;
            self.last_check_ms = now_ms;
            self.running = true;
        }
        due
    }

    /// Records that the look under way has ended.
    pub fn finish(&mut self)
        ensures
            final(self)@ == after_finish(old(self)@),
    {
        self.running = false;
    }
}

/// What every schedule reached from `UpdateCheck::new` satisfies: a look under
/// way was started, so the schedule has started once.
pub open spec fn schedule_ok(s: ScheduleView) -> bool {
    s.running ==> s.started_once
}

/// A new schedule satisfies `schedule_ok`, and polls and finishes keep it.
pub proof fn lemma_schedule_ok_kept(s: ScheduleView, now: u64)
    requires
        schedule_ok(s),
    ensures
        schedule_ok(ScheduleView { running: false, last_check_ms: 0, started_once: false }),
        schedule_ok(after_poll(s, now)),
        schedule_ok(after_finish(s)),
{
}

/// Two looks never run at once: while one is under way, a poll starts none.
pub proof fn lemma_one_look_at_a_time(s: ScheduleView, now: u64)
    requires
        s.running,
    ensures
        after_poll(s, now) == s,
{
}

/// The first look starts no sooner than eight seconds after the start.
pub proof fn lemma_first_look_waits(s: ScheduleView, now: u64)
    requires
        schedule_ok(s),
        !s.started_once,
        after_poll(s, now).running,
    ensures
        now >= CHECK_AFTER_MS,
{
}

/// A look that starts after an earlier one has ended starts six hours or more
/// after the earlier one.
pub proof fn lemma_looks_six_hours_apart(s: ScheduleView, first: u64, second: u64)
    requires
        !s.running,
        after_poll(s, first).running,
        after_poll(after_finish(after_poll(s, first)), second).running,
    ensures
        second >= first + CHECK_EVERY_MS,
{
}

/// `s` with every `'` doubled, as PowerShell reads it inside single quotes.
pub open spec fn ps_escaped(s: Seq<char>) -> Seq<char>
    decreases s.len(),
{
    if s.len() == 0 {
        Seq::<char>::empty()
    } else if s.last() == '\'' {
        ps_escaped(s.drop_last()) + seq!['\'', '\'']
    } else {
        ps_escaped(s.drop_last()).push(s.last())
    }
}

/// `s` as a PowerShell single-quoted string.
pub open spec fn ps_quoted(s: Seq<char>) -> Seq<char> {
    seq!['\''] + ps_escaped(s) + seq!['\'']
}

fn push_ps_escaped(out: &mut String, path: &str)
    ensures
        final(out)@ == old(out)@ + ps_escaped(path@),
{
    let chars = chars_of(path);
    let n = chars.len();
    let ghost start = out@;
    let mut i: usize = 0;
    assert(path@.take(0) =~= Seq::<char>::empty());
    while i < n
        invariant
            n == chars@.len(),
            chars@ == path@,
            i <= n,
            out@ == start + ps_escaped(path@.take(i as int)),
        decreases n - i,
    {
        let c = chars[i];
        assert(path@.take(i + 1).drop_last() =~= path@.take(i as int));
        if c == '\'' {
            push_char(out, '\'');
            push_char(out, '\'');
            assert(out@ =~= start + ps_escaped(path@.take(i + 1)));
        } else {
            push_char(out, c);
            assert(out@ =~= start + ps_escaped(path@.take(i + 1)));
        }
        i = i + 1;
    }
    assert(path@.take(n as int) =~= path@);
}

fn push_ps_quoted(out: &mut String, path: &str)
    ensures
        final(out)@ == old(out)@ + ps_quoted(path@),
{
    let ghost start = out@;
    push_char(out, '\'');
    push_ps_escaped(out, path);
    push_char(out, '\'');
    assert(out@ =~= start + ps_quoted(path@));
}

/// Quotes a path for PowerShell: in single quotes, each `'` doubled.
pub fn ps_quote(path: &str) -> (r: String)
    ensures
        r@ == ps_quoted(path@),
{
    let mut out = String::new();
    push_ps_quoted(&mut out, path);
    assert(out@ =~= ps_quoted(path@));
    out
}

/// The PowerShell command that waits up to thirty seconds for process `pid`
/// to end, moves `downloaded` over `current` and starts it.
pub open spec fn spec_windows_swap_script(pid: u32, downloaded: Seq<char>, current: Seq<char>) -> Seq<char> {
    "$deadline = (Get-Date).AddSeconds(30); while ((Get-Process -Id "@ + decimal(pid as nat)
        + " -ErrorAction SilentlyContinue) -and ((Get-Date) -lt $deadline)) { Start-Sleep -Milliseconds 200 }; Move-Item -LiteralPath "@
        + ps_quoted(downloaded) + " -Destination "@ + ps_quoted(current) + " -Force; Start-Process -FilePath "@
        + ps_quoted(current)
}

/// Builds the PowerShell command that swaps in the downloaded build on Windows.
pub fn windows_swap_script(pid: u32, downloaded: &str, current: &str) -> (r: String)
    ensures
        r@ == spec_windows_swap_script(pid, downloaded@, current@),
{
    let mut s = String::new();
    append_str(&mut s, "$deadline = (Get-Date).AddSeconds(30); while ((Get-Process -Id ");
    push_decimal(&mut s, pid as u64);
    append_str(
        &mut s,
        " -ErrorAction SilentlyContinue) -and ((Get-Date) -lt $deadline)) { Start-Sleep -Milliseconds 200 }; Move-Item -LiteralPath ",
    );
    push_ps_quoted(&mut s, downloaded);
    append_str(&mut s, " -Destination ");
    push_ps_quoted(&mut s, current);
    append_str(&mut s, " -Force; Start-Process -FilePath ");
    push_ps_quoted(&mut s, current);
    assert(s@ =~= spec_windows_swap_script(pid, downloaded@, current@));
    s
}

/// The shell command that waits up to thirty seconds for process `pid` to end,
/// moves `downloaded` over `current`, marks it executable and starts it.
pub open spec fn spec_unix_swap_script(pid: u32, downloaded: Seq<char>, current: Seq<char>) -> Seq<char> {
    "i=0; while kill -0 "@ + decimal(pid as nat)
        + " 2>/dev/null && [ \"$i\" -lt 150 ]; do sleep 0.2; i=$((i+1)); done; mv -f '"@ + downloaded
        + "' '"@ + current + "'; chmod +x '"@ + current + "'; nohup '"@ + current
        + "' >/dev/null 2>&1 &"@
}

/// Builds the shell command that swaps in the downloaded build on Linux.
pub fn unix_swap_script(pid: u32, downloaded: &str, current: &str) -> (r: String)
    ensures
        r@ == spec_unix_swap_script(pid, downloaded@, current@),
{
    let mut s = String::new();
    append_str(&mut s, "i=0; while kill -0 ");
    push_decimal(&mut s, pid as u64);
    append_str(
        &mut s,
        " 2>/dev/null && [ \"$i\" -lt 150 ]; do sleep 0.2; i=$((i+1)); done; mv -f '",
    );
    append_str(&mut s, downloaded);
    append_str(&mut s, "' '");
    append_str(&mut s, current);
    append_str(&mut s, "'; chmod +x '");
    append_str(&mut s, current);
    append_str(&mut s, "'; nohup '");
    append_str(&mut s, current);
    append_str(&mut s, "' >/dev/null 2>&1 &");
    assert(s@ =~= spec_unix_swap_script(pid, downloaded@, current@));
    s
}

} // verus!
