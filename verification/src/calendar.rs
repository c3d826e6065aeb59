//! Calendar parser: one linear pass over the fetched document text,
//! producing the pickup events of the completed blocks in document
//! order, or a fatal error where the source data breaks the format.

use vstd::prelude::*;
use vstd::string::StrSliceExecFns;
use crate::date::{
    Date, DateError, spec_parse_date, parse_date, is_digit, date_digits,
    lemma_parse_date_roundtrip,
};

verus! {

/// The closed vocabulary of pickup categories. A summary text outside
/// this vocabulary never becomes an event.
#[derive(Clone, Copy, Debug, PartialEq, Eq, Structural)]
pub enum Category {
    RecyclablePackaging,
    BioWaste,
    Paper,
    ResidualWaste,
    LeafBags,
    HolidayTrees,
}

/// One scheduled collection occurrence: a calendar date and a pickup
/// category, both known and valid on construction.
#[derive(Clone, Copy, Debug, PartialEq, Eq, Structural)]
pub struct PickupEvent {
    pub date: Date,
    pub category: Category,
}

impl PickupEvent {
    pub open spec fn wf(self) -> bool {
        self.date.wf()
    }
}

/// Fatal parse conditions: a start-date line that breaks the fixed
/// format, or a block that closes without both fields pending.
#[derive(Clone, Copy, Debug, PartialEq, Eq, Structural)]
pub enum ParseError {
    MalformedStartDate,
    IncompleteRecord,
}

/// The prefix that marks a line as a start-date line.
pub open spec fn dtstart_trigger() -> Seq<char> {
    "DTSTART;"@
}

/// The exact prefix a start-date line must carry.
pub open spec fn dtstart_prefix() -> Seq<char> {
    "DTSTART;TZID=Europe/Berlin;VALUE=DATE:"@
}

/// The prefix that marks a line as a summary line.
pub open spec fn summary_prefix() -> Seq<char> {
    "SUMMARY:"@
}

/// The line that closes a block.
pub open spec fn end_token() -> Seq<char> {
    "END:VEVENT"@
}

/// The fixed total length of a well-formed start-date line.
pub const DTSTART_LINE_LEN: usize = 46;

/// The length of the exact start-date prefix.
pub const DTSTART_PREFIX_LEN: usize = 38;

/// The source text naming each category.
pub open spec fn category_name(c: Category) -> Seq<char> {
    match c {
        Category::RecyclablePackaging => "Abfuhr gelbe Wertstofftonne/-sack"@,
        Category::BioWaste => "Abfuhr grüne Biotonne"@,
        Category::Paper => "Abfuhr blaue Papiertonne"@,
        Category::ResidualWaste => "Abfuhr schwarze Restmülltonne"@,
        Category::LeafBags => "Abfuhr Laubsäcke"@,
        Category::HolidayTrees => "Abfuhr Weihnachtsbäume"@,
    }
}

/// The category a trimmed summary text denotes, if any; the match is
/// exact and case-sensitive.
pub open spec fn category_of_name(name: Seq<char>) -> Option<Category> {
    if name == category_name(Category::RecyclablePackaging) {
        Some(Category::RecyclablePackaging)
    } else if name == category_name(Category::BioWaste) {
        Some(Category::BioWaste)
    } else if name == category_name(Category::Paper) {
        Some(Category::Paper)
    } else if name == category_name(Category::ResidualWaste) {
        Some(Category::ResidualWaste)
    } else if name == category_name(Category::LeafBags) {
        Some(Category::LeafBags)
    } else if name == category_name(Category::HolidayTrees) {
        Some(Category::HolidayTrees)
    } else {
        None
    }
}

/// The whitespace tolerated around field text and at line ends.
pub open spec fn is_ws(c: char) -> bool {
    c == ' ' || c == '\t' || c == '\r'
}

pub open spec fn trim_end_spec(s: Seq<char>) -> Seq<char>
    decreases s.len(),
{
    if s.len() > 0 && is_ws(s[s.len() - 1]) {
        trim_end_spec(s.drop_last())
    } else {
        s
    }
}

pub open spec fn trim_start_spec(s: Seq<char>) -> Seq<char>
    decreases s.len(),
{
    if s.len() > 0 && is_ws(s[0]) {
        trim_start_spec(s.subrange(1, s.len() as int))
    } else {
        s
    }
}

pub open spec fn trim_spec(s: Seq<char>) -> Seq<char> {
    trim_start_spec(trim_end_spec(s))
}

/// The document cut at every line feed; always at least one piece.
pub open spec fn split_lines(s: Seq<char>) -> Seq<Seq<char>>
    decreases s.len(),
{
    if s.len() == 0 {
        seq![Seq::<char>::empty()]
    } else if s[0] == '\n' {
        seq![Seq::<char>::empty()] + split_lines(s.subrange(1, s.len() as int))
    } else {
        let rest = split_lines(s.subrange(1, s.len() as int));
        seq![seq![s[0]] + rest[0]] + rest.subrange(1, rest.len() as int)
    }
}

pub open spec fn seq_starts_with(s: Seq<char>, p: Seq<char>) -> bool {
    p.len() <= s.len() && s.subrange(0, p.len() as int) == p
}

/// One scan over the lines with the two pending scratch fields. Each
/// line is taken with its trailing whitespace removed; a start-date
/// line must carry the exact prefix, the exact total length and a real
/// date or the scan aborts; a recognized summary sets the pending
/// category and an unrecognized one leaves it as it was; the block
/// terminator needs both fields pending, emits one event and clears
/// both; every other line is ignored.
pub open spec fn spec_scan(
    lines: Seq<Seq<char>>,
    pending_date: Option<Date>,
    pending_cat: Option<Category>,
) -> Result<Seq<PickupEvent>, ParseError>
    decreases lines.len(),
{
    if lines.len() == 0 {
        Ok(Seq::empty())
    } else {
        let l = trim_end_spec(lines[0]);
        let rest = lines.subrange(1, lines.len() as int);
        if seq_starts_with(l, dtstart_trigger()) {
            if l.len() == DTSTART_LINE_LEN as int && l.subrange(0, DTSTART_PREFIX_LEN as int)
                == dtstart_prefix() {
                match spec_parse_date(l.subrange(DTSTART_PREFIX_LEN as int, DTSTART_LINE_LEN as int)) {
                    Ok(d) => spec_scan(rest, Some(d), pending_cat),
                    Err(_) => Err(ParseError::MalformedStartDate),
                }
            } else {
                Err(ParseError::MalformedStartDate)
            }
        } else if seq_starts_with(l, summary_prefix()) {
            match category_of_name(trim_spec(l.subrange(8, l.len() as int))) {
                Some(c) => spec_scan(rest, pending_date, Some(c)),
                None => spec_scan(rest, pending_date, pending_cat),
            }
        } else if l == end_token() {
            match (pending_date, pending_cat) {
                (Some(d), Some(c)) => match spec_scan(rest, None, None) {
                    Ok(tail) => Ok(seq![PickupEvent { date: d, category: c }] + tail),
                    Err(e) => Err(e),
                },
                _ => Err(ParseError::IncompleteRecord),
            }
        } else {
            spec_scan(rest, pending_date, pending_cat)
        }
    }
}

/// What `extract_events` returns on any document.
pub open spec fn spec_extract(doc: Seq<char>) -> Result<Seq<PickupEvent>, ParseError> {
    spec_scan(split_lines(doc), None, None)
}

pub open spec fn views_of(lines: Seq<Vec<char>>) -> Seq<Seq<char>> {
    lines.map_values(|l: Vec<char>| l@)
}

fn chars_eq(a: &[char], b: &[char]) -> (r: bool)
    ensures
        r == (a@ == b@),
{
    if a.len() != b.len() {
        proof {
            assert(a@.len() != b@.len());
        }
        return false;
    }
    let n = a.len();
    let mut i: usize = 0;
    while i < n
        invariant
            0 <= i <= n,
            n == a@.len(),
            n == b@.len(),
            forall|j: int| 0 <= j < i ==> a@[j] == b@[j],
        decreases n - i,
    {
        if *vstd::slice::slice_index_get(a, i) != *vstd::slice::slice_index_get(b, i) {
            proof {
                assert(a@[i as int] != b@[i as int]);
            }
            return false;
        }
        i = i + 1;
    }
    proof {
        assert(a@ =~= b@);
    }
    true
}

fn slice_has_prefix(s: &[char], p: &[char]) -> (r: bool)
    ensures
        r == seq_starts_with(s@, p@),
{
    if p.len() > s.len() {
        return false;
    }
    let front = vstd::slice::slice_subrange(s, 0, p.len());
    chars_eq(front, p)
}

/// The characters of a string, in order.
fn str_chars(s: &str) -> (v: Vec<char>)
    ensures
        v@ == s@,
{
    let n = s.unicode_len();
    let mut v: Vec<char> = Vec::new();
    let mut i: usize = 0;
    while i < n
        invariant
            0 <= i <= n,
            n == s@.len(),
            v@ == s@.subrange(0, i as int),
        decreases n - i,
    {
        let c = s.get_char(i);
        v.push(c);
        proof {
            assert(v@ =~= s@.subrange(0, (i + 1) as int));
        }
        i = i + 1;
    }
    proof {
        assert(v@ =~= s@);
    }
    v
}

fn is_ws_exec(c: char) -> (r: bool)
    ensures
        r == is_ws(c),
{
    c == ' ' || c == '\t' || c == '\r'
}

fn trim_end_chars(s: &[char]) -> (v: Vec<char>)
    ensures
        v@ == trim_end_spec(s@),
{
    let mut n: usize = s.len();
    proof {
        assert(s@.subrange(0, s@.len() as int) =~= s@);
    }
    while n > 0 && is_ws_exec(*vstd::slice::slice_index_get(s, n - 1))
        invariant
            0 <= n <= s@.len(),
            trim_end_spec(s@) == trim_end_spec(s@.subrange(0, n as int)),
        decreases n,
    {
        proof {
            let pre = s@.subrange(0, n as int);
            assert(pre.drop_last() =~= s@.subrange(0, n - 1));
        }
        n = n - 1;
    }
    proof {
        assert(s@.subrange(0, s@.len() as int) =~= s@);
        let pre = s@.subrange(0, n as int);
        assert(trim_end_spec(pre) == pre);
    }
    slice_to_vec_chars(vstd::slice::slice_subrange(s, 0, n))
}

fn slice_to_vec_chars(s: &[char]) -> (v: Vec<char>)
    ensures
        v@ == s@,
{
    vstd::slice::slice_to_vec(s)
}

fn trim_chars(s: &[char]) -> (v: Vec<char>)
    ensures
        v@ == trim_spec(s@),
{
    let t = trim_end_chars(s);
    let mut i: usize = 0;
    let n = t.len();
    proof {
        assert(t@.subrange(0, t@.len() as int) =~= t@);
    }
    while i < n && is_ws_exec(*vstd::slice::slice_index_get(t.as_slice(), i))
        invariant
            0 <= i <= n,
            n == t@.len(),
            trim_start_spec(t@) == trim_start_spec(t@.subrange(i as int, n as int)),
        decreases n - i,
    {
        proof {
            let pre = t@.subrange(i as int, n as int);
            assert(pre.subrange(1, pre.len() as int) =~= t@.subrange(i + 1, n as int));
        }
        i = i + 1;
    }
    proof {
        assert(t@.subrange(0, n as int) =~= t@);
        let pre = t@.subrange(i as int, n as int);
        assert(trim_start_spec(pre) == pre);
    }
    slice_to_vec_chars(vstd::slice::slice_subrange(t.as_slice(), i, n))
}

proof fn lemma_split_no_newline(s: Seq<char>)
    requires
        forall|i: int| 0 <= i < s.len() ==> s[i] != '\n',
    ensures
        split_lines(s) == seq![s],
    decreases s.len(),
{
    if s.len() == 0 {
        assert(s =~= Seq::<char>::empty());
        assert(split_lines(s) =~= seq![s]);
    } else {
        let tail = s.subrange(1, s.len() as int);
        lemma_split_no_newline(tail);
        let rest = split_lines(tail);
        assert(rest == seq![tail]);
        assert(seq![s[0]] + rest[0] =~= s);
        assert(rest.subrange(1, rest.len() as int) =~= Seq::<Seq<char>>::empty());
        assert(split_lines(s) == seq![seq![s[0]] + rest[0]] + rest.subrange(1, rest.len() as int));
        assert(split_lines(s) =~= seq![s]);
    }
}

proof fn lemma_split_concat(a: Seq<char>, b: Seq<char>)
    requires
        forall|i: int| 0 <= i < a.len() ==> a[i] != '\n',
    ensures
        split_lines(a + seq!['\n'] + b) == seq![a] + split_lines(b),
    decreases a.len(),
{
    let s = a + seq!['\n'] + b;
    if a.len() == 0 {
        assert(s[0] == '\n');
        assert(a =~= Seq::<char>::empty());
        assert(s.subrange(1, s.len() as int) =~= b);
        assert(split_lines(s) =~= seq![a] + split_lines(b));
    } else {
        let a1 = a.subrange(1, a.len() as int);
        lemma_split_concat(a1, b);
        assert(s[0] == a[0] && s[0] != '\n');
        assert(s.subrange(1, s.len() as int) =~= a1 + seq!['\n'] + b);
        let rest = split_lines(s.subrange(1, s.len() as int));
        assert(rest == seq![a1] + split_lines(b));
        assert(rest[0] == a1);
        assert(seq![s[0]] + rest[0] =~= a);
        assert(rest.subrange(1, rest.len() as int) =~= split_lines(b));
        assert(split_lines(s) == seq![seq![s[0]] + rest[0]] + rest.subrange(1, rest.len() as int));
        assert(split_lines(s) =~~= seq![a] + split_lines(b));
    }
}

fn split_lines_exec(doc: &[char]) -> (lines: Vec<Vec<char>>)
    ensures
        views_of(lines@) == split_lines(doc@),
{
    let mut lines: Vec<Vec<char>> = Vec::new();
    let mut pos: usize = 0;
    let n = doc.len();
    proof {
        assert(doc@.subrange(0, doc@.len() as int) =~= doc@);
        assert(views_of(Seq::<Vec<char>>::empty()) + split_lines(doc@) =~= split_lines(doc@));
    }
    loop
        invariant
            0 <= pos <= n,
            n == doc@.len(),
            split_lines(doc@) == views_of(lines@) + split_lines(
                doc@.subrange(pos as int, n as int),
            ),
        decreases n - pos,
    {
        let mut j: usize = pos;
        while j < n && *vstd::slice::slice_index_get(doc, j) != '\n'
            invariant
                pos <= j <= n,
                n == doc@.len(),
                forall|k: int| pos <= k < j ==> doc@[k] != '\n',
            decreases n - j,
        {
            j = j + 1;
        }
        let line = slice_to_vec_chars(vstd::slice::slice_subrange(doc, pos, j));
        if j < n {
            proof {
                let tail = doc@.subrange(pos as int, n as int);
                let a = doc@.subrange(pos as int, j as int);
                let b = doc@.subrange(j + 1, n as int);
                assert(tail =~= a + seq!['\n'] + b);
                lemma_split_concat(a, b);
                assert(views_of(lines@.push(line)) =~= views_of(lines@).push(line@));
                assert(views_of(lines@) + (seq![a] + split_lines(b)) =~= views_of(
                    lines@.push(line),
                ) + split_lines(b));
            }
            lines.push(line);
            pos = j + 1;
        } else {
            proof {
                let a = doc@.subrange(pos as int, n as int);
                lemma_split_no_newline(a);
                assert(views_of(lines@.push(line)) =~= views_of(lines@).push(line@));
                assert(views_of(lines@) + seq![a] =~= views_of(lines@.push(line)));
                assert(split_lines(doc@) == views_of(lines@.push(line)));
            }
            lines.push(line);
            return lines;
        }
    }
}

fn category_of_exec(name: &[char]) -> (r: Option<Category>)
    ensures
        r == category_of_name(name@),
{
    let packaging = str_chars("Abfuhr gelbe Wertstofftonne/-sack");
    let bio = str_chars("Abfuhr grüne Biotonne");
    let paper = str_chars("Abfuhr blaue Papiertonne");
    let residual = str_chars("Abfuhr schwarze Restmülltonne");
    let leaf = str_chars("Abfuhr Laubsäcke");
    let trees = str_chars("Abfuhr Weihnachtsbäume");
    if chars_eq(name, packaging.as_slice()) {
        Some(Category::RecyclablePackaging)
    } else if chars_eq(name, bio.as_slice()) {
        Some(Category::BioWaste)
    } else if chars_eq(name, paper.as_slice()) {
        Some(Category::Paper)
    } else if chars_eq(name, residual.as_slice()) {
        Some(Category::ResidualWaste)
    } else if chars_eq(name, leaf.as_slice()) {
        Some(Category::LeafBags)
    } else if chars_eq(name, trees.as_slice()) {
        Some(Category::HolidayTrees)
    } else {
        None
    }
}

/// One linear pass over the document: the pickup events of its
/// completed blocks in document order, or the first fatal condition
/// met. The result is exactly `spec_extract` of the document text.
pub fn extract_events(doc: &str) -> (r: Result<Vec<PickupEvent>, ParseError>)
    ensures
        match r {
            Ok(events) => spec_extract(doc@) == Ok::<Seq<PickupEvent>, ParseError>(events@)
                && (forall|i: int| 0 <= i < events@.len() ==> (#[trigger] events@[i]).wf()),
            Err(e) => spec_extract(doc@) == Err::<Seq<PickupEvent>, ParseError>(e),
        },
{
    let chars = str_chars(doc);
    let lines = split_lines_exec(chars.as_slice());
    let dt_trigger = str_chars("DTSTART;");
    let dt_prefix = str_chars("DTSTART;TZID=Europe/Berlin;VALUE=DATE:");
    let sum_prefix = str_chars("SUMMARY:");
    let end_line = str_chars("END:VEVENT");
    let mut out: Vec<PickupEvent> = Vec::new();
    let mut pending_date: Option<Date> = None;
    let mut pending_cat: Option<Category> = None;
    let mut i: usize = 0;
    let n = lines.len();
    proof {
        assert(views_of(lines@).subrange(0, n as int) =~= views_of(lines@));
        match spec_scan(views_of(lines@), None, None) {
            Ok(tail) => {
                assert(Seq::<PickupEvent>::empty() + tail =~= tail);
            },
            Err(_) => {},
        }
    }
    while i < n
        invariant
            0 <= i <= n,
            n == lines@.len(),
            views_of(lines@) == split_lines(doc@),
            dt_trigger@ == dtstart_trigger(),
            dt_prefix@ == dtstart_prefix(),
            sum_prefix@ == summary_prefix(),
            end_line@ == end_token(),
            spec_extract(doc@) == (match spec_scan(
                views_of(lines@).subrange(i as int, n as int),
                pending_date,
                pending_cat,
            ) {
                Ok(tail) => Ok::<Seq<PickupEvent>, ParseError>(out@ + tail),
                Err(e) => Err::<Seq<PickupEvent>, ParseError>(e),
            }),
        decreases n - i,
    {
        let ghost suffix = views_of(lines@).subrange(i as int, n as int);
        proof {
            assert(suffix[0] == lines@[i as int]@);
            assert(suffix.subrange(1, suffix.len() as int) =~= views_of(lines@).subrange(
                i + 1,
                n as int,
            ));
        }
        let line = trim_end_chars(lines[i].as_slice());
        let l = line.as_slice();
        if slice_has_prefix(l, dt_trigger.as_slice()) {
            proof {
                reveal_strlit("DTSTART;");
                reveal_strlit("DTSTART;TZID=Europe/Berlin;VALUE=DATE:");
            }
            if line.len() == DTSTART_LINE_LEN && slice_has_prefix(l, dt_prefix.as_slice()) {
                let digits = vstd::slice::slice_subrange(l, DTSTART_PREFIX_LEN, DTSTART_LINE_LEN);
                match parse_date(digits) {
                    Ok(d) => {
                        pending_date = Some(d);
                    },
                    Err(_) => {
                        return Err(ParseError::MalformedStartDate);
                    },
                }
            } else {
                return Err(ParseError::MalformedStartDate);
            }
        } else if slice_has_prefix(l, sum_prefix.as_slice()) {
            proof {
                reveal_strlit("SUMMARY:");
            }
            let name = trim_chars(vstd::slice::slice_subrange(l, 8, line.len()));
            match category_of_exec(name.as_slice()) {
                Some(c) => {
                    pending_cat = Some(c);
                },
                None => {},
            }
        } else if chars_eq(l, end_line.as_slice()) {
            match (pending_date, pending_cat) {
                (Some(d), Some(c)) => {
                    let ev = PickupEvent { date: d, category: c };
                    proof {
                        match spec_scan(
                            views_of(lines@).subrange(i + 1, n as int),
                            None,
                            None,
                        ) {
                            Ok(tail) => {
                                assert(out@ + (seq![ev] + tail) =~= out@.push(ev) + tail);
                            },
                            Err(_) => {},
                        }
                    }
                    out.push(ev);
                    pending_date = None;
                    pending_cat = None;
                },
                _ => {
                    return Err(ParseError::IncompleteRecord);
                },
            }
        } else {
        }
        i = i + 1;
    }
    proof {
        assert(views_of(lines@).subrange(n as int, n as int) =~= Seq::<Seq<char>>::empty());
        assert(out@ + Seq::<PickupEvent>::empty() =~= out@);
        lemma_scan_events_wf(split_lines(doc@), None, None);
    }
    Ok(out)
}

/// No half-built event escapes the scan: whatever it emits carries a
/// real calendar date, provided any date already pending does.
pub proof fn lemma_scan_events_wf(
    lines: Seq<Seq<char>>,
    pending_date: Option<Date>,
    pending_cat: Option<Category>,
)
    requires
        (pending_date matches Some(d) ==> d.wf()),
    ensures
        (spec_scan(lines, pending_date, pending_cat) matches Ok(es) ==> forall|i: int|
            0 <= i < es.len() ==> (#[trigger] es[i]).wf()),
    decreases lines.len(),
{
    if lines.len() == 0 {
    } else {
        let l = trim_end_spec(lines[0]);
        let rest = lines.subrange(1, lines.len() as int);
        if seq_starts_with(l, dtstart_trigger()) {
            if l.len() == DTSTART_LINE_LEN as int && l.subrange(0, DTSTART_PREFIX_LEN as int)
                == dtstart_prefix() {
                let sub = l.subrange(DTSTART_PREFIX_LEN as int, DTSTART_LINE_LEN as int);
                crate::date::lemma_parse_date_wf(sub);
                match spec_parse_date(sub) {
                    Ok(d) => {
                        lemma_scan_events_wf(rest, Some(d), pending_cat);
                    },
                    Err(_) => {},
                }
            }
        } else if seq_starts_with(l, summary_prefix()) {
            match category_of_name(trim_spec(l.subrange(8, l.len() as int))) {
                Some(c) => {
                    lemma_scan_events_wf(rest, pending_date, Some(c));
                },
                None => {
                    lemma_scan_events_wf(rest, pending_date, pending_cat);
                },
            }
        } else if l == end_token() {
            match (pending_date, pending_cat) {
                (Some(d), Some(c)) => {
                    lemma_scan_events_wf(rest, None, None);
                    match spec_scan(rest, None, None) {
                        Ok(tail) => {
                            let ev = PickupEvent { date: d, category: c };
                            assert forall|i: int| 0 <= i < (seq![ev] + tail).len() implies (
                            #[trigger] (seq![ev] + tail)[i]).wf() by {
                                if i == 0 {
                                    assert((seq![ev] + tail)[i] == ev);
                                } else {
                                    assert((seq![ev] + tail)[i] == tail[i - 1]);
                                }
                            }
                        },
                        Err(_) => {},
                    }
                },
                _ => {},
            }
        } else {
            lemma_scan_events_wf(rest, pending_date, pending_cat);
        }
    }
}

/// The serialized block of one event: its start-date line, its summary
/// line and the block terminator, each closed by a line feed.
pub open spec fn serialize_event(e: PickupEvent) -> Seq<char> {
    dtstart_prefix() + date_digits(e.date) + seq!['\n'] + summary_prefix() + category_name(
        e.category,
    ) + seq!['\n'] + end_token() + seq!['\n']
}

/// The serialized calendar document of an event sequence.
pub open spec fn serialize_events(es: Seq<PickupEvent>) -> Seq<char>
    decreases es.len(),
{
    if es.len() == 0 {
        Seq::empty()
    } else {
        serialize_event(es[0]) + serialize_events(es.subrange(1, es.len() as int))
    }
}

proof fn lemma_token_facts()
    ensures
        dtstart_trigger().len() == 8,
        dtstart_prefix().len() == 38,
        summary_prefix().len() == 8,
        end_token().len() == 10,
        dtstart_prefix().subrange(0, 8) == dtstart_trigger(),
        dtstart_trigger()[0] == 'D',
        summary_prefix()[0] == 'S',
        end_token()[0] == 'E',
        forall|i: int| 0 <= i < 38 ==> #[trigger] dtstart_prefix()[i] != '\n',
        forall|i: int| 0 <= i < 8 ==> #[trigger] summary_prefix()[i] != '\n',
        forall|i: int| 0 <= i < 10 ==> #[trigger] end_token()[i] != '\n',
        !is_ws(end_token()[9]),
{
    reveal_strlit("DTSTART;");
    reveal_strlit("DTSTART;TZID=Europe/Berlin;VALUE=DATE:");
    reveal_strlit("SUMMARY:");
    reveal_strlit("END:VEVENT");
    assert(dtstart_prefix().subrange(0, 8) =~= dtstart_trigger());
}

proof fn lemma_category_facts(c: Category)
    ensures
        category_name(c).len() > 0,
        !is_ws(category_name(c)[0]),
        !is_ws(category_name(c)[category_name(c).len() - 1]),
        forall|i: int| 0 <= i < category_name(c).len() ==> #[trigger] category_name(c)[i] != '\n',
        category_of_name(category_name(c)) == Some(c),
{
    reveal_strlit("Abfuhr gelbe Wertstofftonne/-sack");
    reveal_strlit("Abfuhr grüne Biotonne");
    reveal_strlit("Abfuhr blaue Papiertonne");
    reveal_strlit("Abfuhr schwarze Restmülltonne");
    reveal_strlit("Abfuhr Laubsäcke");
    reveal_strlit("Abfuhr Weihnachtsbäume");
    assert(category_name(Category::RecyclablePackaging).len() == 33);
    assert(category_name(Category::BioWaste).len() == 21);
    assert(category_name(Category::Paper).len() == 24);
    assert(category_name(Category::ResidualWaste).len() == 29);
    assert(category_name(Category::LeafBags).len() == 16);
    assert(category_name(Category::HolidayTrees).len() == 22);
    match c {
        Category::RecyclablePackaging => {
            assert(category_of_name(category_name(c)) == Some(c));
        },
        Category::BioWaste => {
            assert(category_of_name(category_name(c)) == Some(c));
        },
        Category::Paper => {
            assert(category_of_name(category_name(c)) == Some(c));
        },
        Category::ResidualWaste => {
            assert(category_of_name(category_name(c)) == Some(c));
        },
        Category::LeafBags => {
            assert(category_of_name(category_name(c)) == Some(c));
        },
        Category::HolidayTrees => {
            assert(category_of_name(category_name(c)) == Some(c));
        },
    }
}

proof fn lemma_trim_end_fix(s: Seq<char>)
    requires
        s.len() == 0 || !is_ws(s[s.len() - 1]),
    ensures
        trim_end_spec(s) == s,
{
}

proof fn lemma_trim_start_fix(s: Seq<char>)
    requires
        s.len() == 0 || !is_ws(s[0]),
    ensures
        trim_start_spec(s) == s,
{
}

proof fn lemma_digit_not_ws_nl(c: char)
    requires
        is_digit(c),
    ensures
        !is_ws(c),
        c != '\n',
{
}

proof fn lemma_not_prefix_differing_first(s: Seq<char>, p: Seq<char>)
    requires
        s.len() > 0,
        p.len() > 0,
        s[0] != p[0],
    ensures
        !seq_starts_with(s, p),
{
    if seq_starts_with(s, p) {
        assert(s.subrange(0, p.len() as int)[0] == s[0]);
        assert(false);
    }
}

/// The parser is the inverse of serialization: feeding it its own
/// output, re-serialized in the calendar format, yields exactly the
/// same events, in the same order — n well-formed blocks in, the same
/// n events out.
pub proof fn lemma_extract_serialize_roundtrip(es: Seq<PickupEvent>)
    requires
        forall|i: int| 0 <= i < es.len() ==> (#[trigger] es[i]).wf(),
    ensures
        spec_extract(serialize_events(es)) == Ok::<Seq<PickupEvent>, ParseError>(es),
    decreases es.len(),
{
    lemma_token_facts();
    let doc = serialize_events(es);
    if es.len() == 0 {
        assert(doc =~= Seq::<char>::empty());
        let lines = split_lines(doc);
        assert(lines == seq![Seq::<char>::empty()]);
        lemma_trim_end_fix(lines[0]);
        assert(!seq_starts_with(lines[0], dtstart_trigger()));
        assert(!seq_starts_with(lines[0], summary_prefix()));
        assert(lines[0] != end_token());
        let rest = lines.subrange(1, lines.len() as int);
        assert(rest =~= Seq::<Seq<char>>::empty());
        assert(spec_scan(lines, None, None) == spec_scan(rest, None, None));
        assert(spec_scan(rest, None, None) == Ok::<Seq<PickupEvent>, ParseError>(Seq::empty()));
        assert(es =~= Seq::<PickupEvent>::empty());
    } else {
        let e = es[0];
        assert(es[0].wf());
        lemma_category_facts(e.category);
        lemma_parse_date_roundtrip(e.date);
        let tail = es.subrange(1, es.len() as int);
        assert forall|i: int| 0 <= i < tail.len() implies (#[trigger] tail[i]).wf() by {
            assert(tail[i] == es[i + 1]);
            assert(es[i + 1].wf());
        }
        lemma_extract_serialize_roundtrip(tail);
        let name = category_name(e.category);
        let line_d = dtstart_prefix() + date_digits(e.date);
        let line_s = summary_prefix() + name;
        let rest_doc = serialize_events(tail);
        let after_s = end_token() + seq!['\n'] + rest_doc;
        let after_d = line_s + seq!['\n'] + after_s;
        assert(doc =~= line_d + seq!['\n'] + after_d);
        assert forall|i: int| 0 <= i < line_d.len() implies #[trigger] line_d[i] != '\n' by {
            if i < 38 {
                assert(line_d[i] == dtstart_prefix()[i]);
            } else {
                assert(line_d[i] == date_digits(e.date)[i - 38]);
                assert(is_digit(date_digits(e.date)[i - 38]));
                lemma_digit_not_ws_nl(date_digits(e.date)[i - 38]);
            }
        }
        assert forall|i: int| 0 <= i < line_s.len() implies #[trigger] line_s[i] != '\n' by {
            if i < 8 {
                assert(line_s[i] == summary_prefix()[i]);
            } else {
                assert(line_s[i] == name[i - 8]);
            }
        }
        lemma_split_concat(line_d, after_d);
        assert(split_lines(doc) == seq![line_d] + split_lines(after_d));
        assert(after_d =~= line_s + seq!['\n'] + after_s);
        lemma_split_concat(line_s, after_s);
        assert(split_lines(after_d) == seq![line_s] + split_lines(after_s));
        lemma_split_concat(end_token(), rest_doc);
        assert(split_lines(after_s) == seq![end_token()] + split_lines(rest_doc));
        // First line: the start-date line sets the pending date.
        let lines = split_lines(doc);
        assert(lines[0] == line_d);
        assert(line_d.len() == 46);
        assert(is_digit(date_digits(e.date)[7]));
        lemma_digit_not_ws_nl(date_digits(e.date)[7]);
        assert(line_d[45] == date_digits(e.date)[7]);
        lemma_trim_end_fix(line_d);
        assert(line_d.subrange(0, 8) =~= dtstart_prefix().subrange(0, 8));
        assert(seq_starts_with(line_d, dtstart_trigger()));
        assert(line_d.subrange(0, 38) =~= dtstart_prefix());
        assert(line_d.subrange(38, 46) =~= date_digits(e.date));
        assert(spec_parse_date(line_d.subrange(38, 46)) == Ok::<Date, DateError>(e.date));
        assert(lines.subrange(1, lines.len() as int) =~= split_lines(after_d));
        assert(spec_scan(lines, None, None) == spec_scan(
            split_lines(after_d),
            Some(e.date),
            None,
        ));
        // Second line: the summary line sets the pending category.
        let lines2 = split_lines(after_d);
        assert(lines2[0] == line_s);
        assert(line_s[line_s.len() - 1] == name[name.len() - 1]);
        lemma_trim_end_fix(line_s);
        assert(line_s[0] == 'S' && dtstart_trigger()[0] == 'D');
        lemma_not_prefix_differing_first(line_s, dtstart_trigger());
        assert(line_s.subrange(0, 8) =~= summary_prefix());
        assert(seq_starts_with(line_s, summary_prefix()));
        assert(line_s.subrange(8, line_s.len() as int) =~= name);
        lemma_trim_end_fix(name);
        lemma_trim_start_fix(name);
        assert(trim_spec(name) == name);
        assert(category_of_name(name) == Some(e.category));
        assert(lines2.subrange(1, lines2.len() as int) =~= split_lines(after_s));
        assert(spec_scan(lines2, Some(e.date), None) == spec_scan(
            split_lines(after_s),
            Some(e.date),
            Some(e.category),
        ));
        // Third line: the terminator emits the event and clears both.
        let lines3 = split_lines(after_s);
        assert(lines3[0] == end_token());
        lemma_trim_end_fix(end_token());
        lemma_not_prefix_differing_first(end_token(), dtstart_trigger());
        lemma_not_prefix_differing_first(end_token(), summary_prefix());
        assert(lines3.subrange(1, lines3.len() as int) =~= split_lines(rest_doc));
        assert(spec_scan(split_lines(rest_doc), None, None) == Ok::<
            Seq<PickupEvent>,
            ParseError,
        >(tail));
        assert(spec_scan(lines3, Some(e.date), Some(e.category)) == Ok::<
            Seq<PickupEvent>,
            ParseError,
        >(seq![PickupEvent { date: e.date, category: e.category }] + tail));
        assert(PickupEvent { date: e.date, category: e.category } == e);
        assert(seq![e] + tail =~= es);
    }
}

} // verus!

