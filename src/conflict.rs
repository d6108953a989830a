//! Structured reading of the storage engine's diagnostic text for a rejected
//! overlapping window, e.g.
//! `Key (resource_id, timespan)=(room-1, ["2022-12-25 19:00:00+00","2022-12-27 19:00:00+00")) conflicts with existing key (resource_id, timespan)=(room-1, [...)).`
//!
//! The text is scanned for groups of the shape
//! `(<name> , <name>)=(<name> , [<value>` where a name is a run of ASCII letters,
//! digits, `_` and `-`, the blanks around each comma are optional runs of white
//! space, and the value runs up to the next `)` or `]`. Scanning goes from left to
//! right and resumes after each group found.
use vstd::prelude::*;

use crate::text::{
    chars_of, split_at_comma, split_first, strip_quotes, text_of, without_quotes,
};
use crate::timestamp::{parse_instant, parsed_instant, Timestamp};

verus! {

/// How the storage engine writes the end points of a range in its diagnostics:
/// `2022-12-25 19:00:00+00`, with an offset that may lack its minutes.
pub const DIAGNOSTIC_TIME_FORMAT: &'static str = "%Y-%m-%d %H:%M:%S%#z";

/// The three kinds of runs that a group is made of.
#[derive(Clone, Copy, Debug, PartialEq, Eq, Structural)]
pub enum CharClass {
    /// ASCII letters, digits, `_` and `-`.
    Name,
    /// Unicode white space.
    Space,
    /// Anything but `)` and `]`.
    Value,
}

pub open spec fn is_space(c: char) -> bool {
    c == '\t' || c == '\n' || c == '\u{0B}' || c == '\u{0C}' || c == '\r' || c == ' ' || c
        == '\u{85}' || c == '\u{A0}' || c == '\u{1680}' || ('\u{2000}' <= c && c <= '\u{200A}')
        || c == '\u{2028}' || c == '\u{2029}' || c == '\u{202F}' || c == '\u{205F}' || c
        == '\u{3000}'
}

pub open spec fn is_name_char(c: char) -> bool {
    ('a' <= c && c <= 'z') || ('A' <= c && c <= 'Z') || ('0' <= c && c <= '9') || c == '_'
        || c == '-'
}

pub open spec fn in_class(c: char, k: CharClass) -> bool {
    match k {
        CharClass::Name => is_name_char(c),
        CharClass::Space => is_space(c),
        CharClass::Value => c != ')' && c != ']',
    }
}

/// End of the longest run of class `k` that starts at `i`.
pub open spec fn run_end(s: Seq<char>, i: int, k: CharClass) -> int
    decreases s.len() - i,
{
    if 0 <= i < s.len() && in_class(s[i], k) {
        run_end(s, i + 1, k)
    } else {
        i
    }
}

/// The two `name -> value` pairs of one group, in the order the text gives them.
pub struct PairsView {
    pub k1: Seq<char>,
    pub v1: Seq<char>,
    pub k2: Seq<char>,
    pub v2: Seq<char>,
}

impl PairsView {
    /// The value given for `key`; where both names are the same, the second pair's.
    pub open spec fn get(self, key: Seq<char>) -> Option<Seq<char>> {
        if key == self.k2 {
            Some(self.v2)
        } else if key == self.k1 {
            Some(self.v1)
        } else {
            None
        }
    }
}

/// The group that starts at `p`, with the position just after it.
pub open spec fn group_at(s: Seq<char>, p: int) -> Option<(PairsView, int)> {
    let a = p + 1;
    let ae = run_end(s, a, CharClass::Name);
    let b = run_end(s, ae, CharClass::Space);
    let c = run_end(s, b + 1, CharClass::Space);
    let ce = run_end(s, c, CharClass::Name);
    let d = ce + 3;
    let de = run_end(s, d, CharClass::Name);
    let f = run_end(s, de, CharClass::Space);
    let g = run_end(s, f + 1, CharClass::Space);
    let h = g + 1;
    let he = run_end(s, h, CharClass::Value);
    if 0 <= p < s.len() && s[p] == '(' && ae > a && b < s.len() && s[b] == ',' && ce > c && ce
        + 2 < s.len() && s[ce] == ')' && s[ce + 1] == '=' && s[ce + 2] == '(' && de > d && f
        < s.len() && s[f] == ',' && g < s.len() && s[g] == '[' && he > h {
        Some(
            (
                PairsView {
                    k1: s.subrange(a, ae),
                    v1: s.subrange(d, de),
                    k2: s.subrange(c, ce),
                    v2: s.subrange(h, he),
                },
                he,
            ),
        )
    } else {
        None
    }
}

/// Every group found scanning `s` from `pos`, resuming after each one.
pub open spec fn groups_from(s: Seq<char>, pos: int) -> Seq<PairsView>
    decreases s.len() - pos,
{
    if 0 <= pos < s.len() {
        match group_at(s, pos) {
            Some(g) => {
                proof {
                    lemma_group_ends_after(s, pos);
                }
                seq![g.0] + groups_from(s, g.1)
            },
            None => groups_from(s, pos + 1),
        }
    } else {
        seq![]
    }
}

/// Every group of `s`.
pub open spec fn groups(s: Seq<char>) -> Seq<PairsView> {
    groups_from(s, 0)
}

pub proof fn lemma_run_end_bounds(s: Seq<char>, i: int, k: CharClass)
    requires
        0 <= i <= s.len(),
    ensures
        i <= run_end(s, i, k) <= s.len(),
        forall|j: int| i <= j < run_end(s, i, k) ==> in_class(#[trigger] s[j], k),
    decreases s.len() - i,
{
    if i < s.len() && in_class(s[i], k) {
        lemma_run_end_bounds(s, i + 1, k);
    }
}

pub proof fn lemma_group_ends_after(s: Seq<char>, p: int)
    ensures
        group_at(s, p) is Some ==> p < group_at(s, p)->Some_0.1 <= s.len(),
{
    if group_at(s, p) is Some {
        let a = p + 1;
        let ae = run_end(s, a, CharClass::Name);
        let b = run_end(s, ae, CharClass::Space);
        let c = run_end(s, b + 1, CharClass::Space);
        let ce = run_end(s, c, CharClass::Name);
        let d = ce + 3;
        let de = run_end(s, d, CharClass::Name);
        let f = run_end(s, de, CharClass::Space);
        let g = run_end(s, f + 1, CharClass::Space);
        let h = g + 1;
        lemma_run_end_bounds(s, a, CharClass::Name);
        lemma_run_end_bounds(s, ae, CharClass::Space);
        lemma_run_end_bounds(s, b + 1, CharClass::Space);
        lemma_run_end_bounds(s, c, CharClass::Name);
        lemma_run_end_bounds(s, d, CharClass::Name);
        lemma_run_end_bounds(s, de, CharClass::Space);
        lemma_run_end_bounds(s, f + 1, CharClass::Space);
        lemma_run_end_bounds(s, h, CharClass::Value);
    }
}

/// What a window group of a diagnostic describes: the resource and the range's two
/// end points, each read in the storage engine's time format.
pub struct WindowView {
    pub rid: Seq<char>,
    pub start: Timestamp,
    pub end: Timestamp,
}

pub struct ConflictView {
    pub new: WindowView,
    pub existing: WindowView,
}

pub enum ConflictInfoView {
    Parsed(ConflictView),
    UnParsed(Seq<char>),
}

/// The window that one group describes: its `timespan` value with quotes taken out,
/// split at the first comma into two instants, and its `resource_id` value.
pub open spec fn window_of(kv: PairsView) -> Option<WindowView> {
    match (kv.get("timespan"@), kv.get("resource_id"@)) {
        (Some(span), Some(rid)) => match split_first(without_quotes(span), ',') {
            Some(parts) => match (
                parsed_instant(parts.0, DIAGNOSTIC_TIME_FORMAT@),
                parsed_instant(parts.1, DIAGNOSTIC_TIME_FORMAT@),
            ) {
                (Some(start), Some(end)) => Some(WindowView { rid, start, end }),
                _ => None,
            },
            None => None,
        },
        _ => None,
    }
}

/// The structured reading of a diagnostic: exactly two groups, the attempted window
/// first and the existing one second, both readable; else the text unchanged.
pub open spec fn conflict_info_of(raw: Seq<char>) -> ConflictInfoView {
    let gs = groups(raw);
    if gs.len() == 2 {
        match (window_of(gs[0]), window_of(gs[1])) {
            (Some(new), Some(existing)) => ConflictInfoView::Parsed(
                ConflictView { new, existing },
            ),
            _ => ConflictInfoView::UnParsed(raw),
        }
    } else {
        ConflictInfoView::UnParsed(raw)
    }
}

} // verus!

verus! {

fn char_in_class(c: char, k: CharClass) -> (r: bool)
    ensures
        r == in_class(c, k),
{
    match k {
        CharClass::Name => ('a' <= c && c <= 'z') || ('A' <= c && c <= 'Z') || ('0' <= c && c
            <= '9') || c == '_' || c == '-',
        CharClass::Space => c == '\t' || c == '\n' || c == '\u{0B}' || c == '\u{0C}' || c
            == '\r' || c == ' ' || c == '\u{85}' || c == '\u{A0}' || c == '\u{1680}' || (
        '\u{2000}' <= c && c <= '\u{200A}') || c == '\u{2028}' || c == '\u{2029}' || c
            == '\u{202F}' || c == '\u{205F}' || c == '\u{3000}',
        CharClass::Value => c != ')' && c != ']',
    }
}

/// End of the longest run of class `k` in `chars` that starts at `i`.
fn skip_run(chars: &Vec<char>, i: usize, k: CharClass) -> (r: usize)
    requires
        i <= chars.len(),
    ensures
        r == run_end(chars@, i as int, k),
        i <= r <= chars.len(),
{
    let mut j: usize = i;
    while j < chars.len() && char_in_class(chars[j], k)
        invariant
            i <= j <= chars.len(),
            run_end(chars@, j as int, k) == run_end(chars@, i as int, k),
        decreases chars.len() - j,
    {
        j = j + 1;
    }
    j
}

/// The two `name -> value` pairs of one group of a diagnostic.
#[derive(Clone, Debug, PartialEq, Eq)]
pub struct KeyValues {
    pub k1: String,
    pub v1: String,
    pub k2: String,
    pub v2: String,
}

impl View for KeyValues {
    type V = PairsView;

    open spec fn view(&self) -> PairsView {
        PairsView { k1: self.k1@, v1: self.v1@, k2: self.k2@, v2: self.v2@ }
    }
}

impl KeyValues {
    /// The value given for `key`; where both names are the same, the second pair's.
    pub fn get(&self, key: &str) -> (r: Option<String>)
        ensures
            r.is_some() == self@.get(key@).is_some(),
            r.is_some() ==> r.unwrap()@ == self@.get(key@).unwrap(),
    {
        let key = key.to_owned();
        if self.k2 == key {
            Some(self.v2.clone())
        } else if self.k1 == key {
            Some(self.v1.clone())
        } else {
            None
        }
    }
}

/// The group of `chars` that starts at `p`, with the position just after it.
fn group_at_exec(chars: &Vec<char>, p: usize) -> (r: Option<(KeyValues, usize)>)
    requires
        p < chars.len(),
    ensures
        r.is_some() == group_at(chars@, p as int).is_some(),
        r.is_some() ==> r.unwrap().0@ == group_at(chars@, p as int).unwrap().0 && r.unwrap().1
            == group_at(chars@, p as int).unwrap().1,
{
    let n = chars.len();
    if chars[p] != '(' {
        return None;
    }
    let a = p + 1;
    let ae = skip_run(chars, a, CharClass::Name);
    if ae <= a {
        return None;
    }
    let b = skip_run(chars, ae, CharClass::Space);
    if b >= n || chars[b] != ',' {
        return None;
    }
    let c = skip_run(chars, b + 1, CharClass::Space);
    let ce = skip_run(chars, c, CharClass::Name);
    if ce <= c || n - ce < 3 || chars[ce] != ')' || chars[ce + 1] != '=' || chars[ce + 2]
        != '(' {
        return None;
    }
    let d = ce + 3;
    let de = skip_run(chars, d, CharClass::Name);
    if de <= d {
        return None;
    }
    let f = skip_run(chars, de, CharClass::Space);
    if f >= n || chars[f] != ',' {
        return None;
    }
    let g = skip_run(chars, f + 1, CharClass::Space);
    if g >= n || chars[g] != '[' {
        return None;
    }
    let h = g + 1;
    let he = skip_run(chars, h, CharClass::Value);
    if he <= h {
        return None;
    }
    let kv = KeyValues {
        k1: text_of(chars, a, ae),
        v1: text_of(chars, d, de),
        k2: text_of(chars, c, ce),
        v2: text_of(chars, h, he),
    };
    Some((kv, he))
}

/// Every group of `s`, scanning from the left and resuming after each one.
pub fn scan_groups(s: &str) -> (r: Vec<KeyValues>)
    ensures
        r@.len() == groups(s@).len(),
        forall|i: int| 0 <= i < r@.len() ==> #[trigger] r@[i]@ == groups(s@)[i],
{
    let chars = chars_of(s);
    let n = chars.len();
    let mut found: Vec<KeyValues> = Vec::new();
    let ghost mut seen: Seq<PairsView> = seq![];
    let mut pos: usize = 0;
    while pos < n
        invariant
            chars@ == s@,
            n == chars.len(),
            pos <= n,
            found@.len() == seen.len(),
            forall|i: int| 0 <= i < seen.len() ==> #[trigger] found@[i]@ == seen[i],
            groups(s@) == seen + groups_from(s@, pos as int),
        decreases n - pos,
    {
        match group_at_exec(&chars, pos) {
            Some((kv, next)) => {
                proof {
                    lemma_group_ends_after(s@, pos as int);
                    assert(groups_from(s@, pos as int) == seq![kv@] + groups_from(
                        s@,
                        next as int,
                    ));
                    seen = seen.push(kv@);
                    assert(seen + groups_from(s@, next as int) =~= (seen.drop_last() + seq![
                        kv@,
                    ]) + groups_from(s@, next as int));
                }
                found.push(kv);
                pos = next;
            },
            None => {
                pos = pos + 1;
            },
        }
    }
    assert(seen + groups_from(s@, pos as int) =~= seen);
    found
}

} // verus!

verus! {

/// The two groups of a diagnostic: the attempted window's, then the existing one's.
#[derive(Debug)]
pub struct ParsedInfo {
    pub new: KeyValues,
    pub existing: KeyValues,
}

impl ParsedInfo {
    /// Finds the groups of `s`; succeeds when there are exactly two.
    pub fn parse(s: &str) -> (r: Result<ParsedInfo, ()>)
        ensures
            r.is_ok() == (groups(s@).len() == 2),
            r.is_ok() ==> r.unwrap().new@ == groups(s@)[0] && r.unwrap().existing@ == groups(
                s@,
            )[1],
    {
        let mut found = scan_groups(s);
        if found.len() != 2 {
            return Err(());
        }
        let existing = found.pop().unwrap();
        let new = found.pop().unwrap();
        Ok(ParsedInfo { new, existing })
    }
}

impl std::str::FromStr for ParsedInfo {
    type Err = ();

    fn from_str(s: &str) -> (r: Result<ParsedInfo, ()>)
        ensures
            r.is_ok() == (groups(s@).len() == 2),
            r.is_ok() ==> r.unwrap().new@ == groups(s@)[0] && r.unwrap().existing@ == groups(
                s@,
            )[1],
    {
        ParsedInfo::parse(s)
    }
}

/// Reads an end point in the diagnostic time format, as a UTC instant.
pub fn parse_datetime(s: &str) -> (r: Result<Timestamp, ()>)
    ensures
        r.is_ok() == parsed_instant(s@, DIAGNOSTIC_TIME_FORMAT@).is_some(),
        r.is_ok() ==> r.unwrap() == parsed_instant(s@, DIAGNOSTIC_TIME_FORMAT@).unwrap(),
{
    match parse_instant(s, DIAGNOSTIC_TIME_FORMAT) {
        Some(t) => Ok(t),
        None => Err(()),
    }
}

/// One half-open window `[start, end)` on one resource, as a diagnostic reports it.
#[derive(Clone, Debug)]
pub struct ReservationWindow {
    pub rid: String,
    pub start: Timestamp,
    pub end: Timestamp,
}

impl View for ReservationWindow {
    type V = WindowView;

    open spec fn view(&self) -> WindowView {
        WindowView { rid: self.rid@, start: self.start, end: self.end }
    }
}

impl ReservationWindow {
    /// Reads the window of one group: its `timespan` value with the quotes taken out,
    /// split at the first comma into two instants in the diagnostic time format, and
    /// its `resource_id` value.
    pub fn from_pairs(kv: &KeyValues) -> (r: Result<ReservationWindow, ()>)
        ensures
            r.is_ok() == window_of(kv@).is_some(),
            r.is_ok() ==> r.unwrap()@ == window_of(kv@).unwrap(),
    {
        let span = match kv.get("timespan") {
            Some(span) => span,
            None => return Err(()),
        };
        let rid = match kv.get("resource_id") {
            Some(rid) => rid,
            None => return Err(()),
        };
        let bare = strip_quotes(span.as_str());
        let (first, second) = match split_at_comma(bare.as_str()) {
            Some(parts) => parts,
            None => return Err(()),
        };
        let start = parse_datetime(first.as_str())?;
        let end = parse_datetime(second.as_str())?;
        Ok(ReservationWindow { rid, start, end })
    }
}

impl PartialEq for ReservationWindow {
    fn eq(&self, other: &ReservationWindow) -> (r: bool) {
        self.rid == other.rid && self.start == other.start && self.end == other.end
    }
}

impl vstd::std_specs::cmp::PartialEqSpecImpl for ReservationWindow {
    open spec fn obeys_eq_spec() -> bool {
        true
    }

    open spec fn eq_spec(&self, other: &ReservationWindow) -> bool {
        self@ == other@
    }
}

impl Eq for ReservationWindow {

}

/// The attempted window and the existing window it collides with.
#[derive(Clone, Debug)]
pub struct ReservationConflict {
    pub new: ReservationWindow,
    pub existing: ReservationWindow,
}

impl View for ReservationConflict {
    type V = ConflictView;

    open spec fn view(&self) -> ConflictView {
        ConflictView { new: self.new@, existing: self.existing@ }
    }
}

impl ReservationConflict {
    /// Reads the two windows of a diagnostic's groups.
    pub fn from_parsed(info: &ParsedInfo) -> (r: Result<ReservationConflict, ()>)
        ensures
            r.is_ok() == (window_of(info.new@).is_some() && window_of(info.existing@).is_some()),
            r.is_ok() ==> r.unwrap()@ == (ConflictView {
                new: window_of(info.new@).unwrap(),
                existing: window_of(info.existing@).unwrap(),
            }),
    {
        let new = ReservationWindow::from_pairs(&info.new)?;
        let existing = ReservationWindow::from_pairs(&info.existing)?;
        Ok(ReservationConflict { new, existing })
    }
}

impl PartialEq for ReservationConflict {
    fn eq(&self, other: &ReservationConflict) -> (r: bool) {
        self.new == other.new && self.existing == other.existing
    }
}

impl vstd::std_specs::cmp::PartialEqSpecImpl for ReservationConflict {
    open spec fn obeys_eq_spec() -> bool {
        true
    }

    open spec fn eq_spec(&self, other: &ReservationConflict) -> bool {
        self@ == other@
    }
}

impl Eq for ReservationConflict {

}

/// What a conflict diagnostic says: the two windows, or the text itself where it does
/// not have the expected shape.
#[derive(Clone, Debug)]
pub enum ReservationConflictInfo {
    Parsed(ReservationConflict),
    UnParsed(String),
}

impl View for ReservationConflictInfo {
    type V = ConflictInfoView;

    open spec fn view(&self) -> ConflictInfoView {
        match self {
            ReservationConflictInfo::Parsed(c) => ConflictInfoView::Parsed(c@),
            ReservationConflictInfo::UnParsed(s) => ConflictInfoView::UnParsed(s@),
        }
    }
}

impl ReservationConflictInfo {
    /// Reads a diagnostic; never fails: text of another shape is kept as it is.
    pub fn parse(raw: &str) -> (r: ReservationConflictInfo)
        ensures
            r@ == conflict_info_of(raw@),
    {
        match ParsedInfo::parse(raw) {
            Ok(info) => match ReservationConflict::from_parsed(&info) {
                Ok(conflict) => ReservationConflictInfo::Parsed(conflict),
                Err(()) => ReservationConflictInfo::UnParsed(raw.to_owned()),
            },
            Err(()) => ReservationConflictInfo::UnParsed(raw.to_owned()),
        }
    }
}

impl std::str::FromStr for ReservationConflictInfo {
    type Err = std::convert::Infallible;

    fn from_str(s: &str) -> (r: Result<ReservationConflictInfo, std::convert::Infallible>)
        ensures
            r is Ok && r->Ok_0@ == conflict_info_of(s@),
    {
        Ok(ReservationConflictInfo::parse(s))
    }
}

impl PartialEq for ReservationConflictInfo {
    fn eq(&self, other: &ReservationConflictInfo) -> (r: bool) {
        match (self, other) {
            (ReservationConflictInfo::Parsed(a), ReservationConflictInfo::Parsed(b)) => a.eq(b),
            (ReservationConflictInfo::UnParsed(a), ReservationConflictInfo::UnParsed(b)) => a.eq(
                b,
            ),
            _ => false,
        }
    }
}

impl vstd::std_specs::cmp::PartialEqSpecImpl for ReservationConflictInfo {
    open spec fn obeys_eq_spec() -> bool {
        true
    }

    open spec fn eq_spec(&self, other: &ReservationConflictInfo) -> bool {
        self@ == other@
    }
}

impl Eq for ReservationConflictInfo {

}

/// A diagnostic without exactly two groups is kept unchanged.
pub proof fn lemma_unmatched_text_kept(raw: Seq<char>)
    requires
        groups(raw).len() != 2,
    ensures
        conflict_info_of(raw) == ConflictInfoView::UnParsed(raw),
{
}

} // verus!
