//! Which origins may call the service from a browser: the list of allowed
//! origins as the configuration writes it, and whether an origin is allowed.

use vstd::prelude::*;
use vstd::string::{StringExecFns, StrSliceExecFns};

verus! {

broadcast use vstd::utf8::encode_utf8_decode_utf8;

// ----- comparing texts

/// Whether two texts are the same.
pub fn same_text(a: &str, b: &str) -> (r: bool)
    ensures
        r == (a@ == b@),
{
    let x = a.as_bytes();
    let y = b.as_bytes();
    if x.len() != y.len() {
        return false;
    }
    let mut i: usize = 0;
    while i < x.len()
        invariant
            x@ == vstd::utf8::encode_utf8(a@),
            y@ == vstd::utf8::encode_utf8(b@),
            x.len() == y.len(),
            i <= x.len(),
            forall|j: int| 0 <= j < i ==> x@[j] == y@[j],
        decreases x.len() - i,
    {
        if x[i] != y[i] {
            return false;
        }
        i += 1;
    }
    assert(x@ =~= y@);
    assert(vstd::utf8::decode_utf8(vstd::utf8::encode_utf8(a@)) == a@);
    assert(vstd::utf8::decode_utf8(vstd::utf8::encode_utf8(b@)) == b@);
    true
}

/// Whether a text holds the wildcard `*`.
pub fn has_wildcard(s: &str) -> (r: bool)
    ensures
        r == s@.contains('*'),
{
    for c in it: s.chars()
        invariant
            it.seq() == s@,
            forall|j: int| 0 <= j < it.index() ==> s@[j] != '*',
    {
        if c == '*' {
            assert(s@[it.index() as int] == '*');
            return true;
        }
    }
    false
}

// ----- the list of allowed origins

/// A character with the Unicode property White_Space: tab, line feed,
/// vertical tab, form feed, carriage return, space, next line, no-break
/// space, ogham space mark, the spaces U+2000 to U+200A, line separator,
/// paragraph separator, narrow no-break space, medium mathematical space and
/// ideographic space.
pub open spec fn white_space(c: char) -> bool {
    let u = c as u32;
    ||| 9 <= u <= 13
    ||| u == 32
    ||| u == 0x85
    ||| u == 0xA0
    ||| u == 0x1680
    ||| 0x2000 <= u <= 0x200A
    ||| u == 0x2028
    ||| u == 0x2029
    ||| u == 0x202F
    ||| u == 0x205F
    ||| u == 0x3000
}

/// The text without its leading white space.
pub open spec fn trim_start(s: Seq<char>) -> Seq<char>
    decreases s.len(),
{
    if s.len() > 0 && white_space(s[0]) {
        trim_start(s.drop_first())
    } else {
        s
    }
}

/// The text without its trailing white space.
pub open spec fn trim_end(s: Seq<char>) -> Seq<char>
    decreases s.len(),
{
    if s.len() > 0 && white_space(s.last()) {
        trim_end(s.drop_last())
    } else {
        s
    }
}

/// The text without its leading and trailing white space.
pub open spec fn trimmed(s: Seq<char>) -> Seq<char> {
    trim_end(trim_start(s))
}

/// Whether a character has the Unicode property White_Space.
pub fn is_white_space(c: char) -> (r: bool)
    ensures
        r == white_space(c),
{
    let u = c as u32;
    (9 <= u && u <= 13) || u == 32 || u == 0x85 || u == 0xA0 || u == 0x1680 || (0x2000 <= u
        && u <= 0x200A) || u == 0x2028 || u == 0x2029 || u == 0x202F || u == 0x205F || u
        == 0x3000
}

/// The text without its leading and trailing white space, as `str::trim`
/// returns it.
pub fn trim_text(s: &str) -> (r: &str)
    ensures
        r@ == trimmed(s@),
{
    let n = s.unicode_len();
    let mut i: usize = 0;
    assert(s@.subrange(0, n as int) =~= s@);
    while i < n && is_white_space(s.get_char(i))
        invariant
            n == s@.len(),
            i <= n,
            trim_start(s@) == trim_start(s@.subrange(i as int, n as int)),
        decreases n - i,
    {
        assert(s@.subrange(i as int, n as int).drop_first() =~= s@.subrange(i + 1, n as int));
        i += 1;
    }
    assert(trim_start(s@.subrange(i as int, n as int)) == s@.subrange(i as int, n as int));
    let mut j: usize = n;
    while j > i && is_white_space(s.get_char(j - 1))
        invariant
            n == s@.len(),
            i <= j <= n,
            trimmed(s@) == trim_end(s@.subrange(i as int, j as int)),
        decreases j - i,
    {
        assert(s@.subrange(i as int, j as int).drop_last() =~= s@.subrange(i as int, j - 1));
        j -= 1;
    }
    s.substring_char(i, j)
}

/// Trimming adds no character: a text without commas stays without them.
proof fn trimmed_keeps_no_comma(s: Seq<char>)
    requires
        !s.contains(','),
    ensures
        !trimmed(s).contains(','),
{
    trim_start_keeps_no_comma(s);
    trim_end_keeps_no_comma(trim_start(s));
}

proof fn trim_start_keeps_no_comma(s: Seq<char>)
    requires
        !s.contains(','),
    ensures
        !trim_start(s).contains(','),
    decreases s.len(),
{
    if s.len() > 0 && white_space(s[0]) {
        assert forall|k: int| 0 <= k < s.drop_first().len() implies s.drop_first()[k] != ',' by {
            assert(s.drop_first()[k] == s[k + 1]);
        }
        trim_start_keeps_no_comma(s.drop_first());
    }
}

proof fn trim_end_keeps_no_comma(s: Seq<char>)
    requires
        !s.contains(','),
    ensures
        !trim_end(s).contains(','),
    decreases s.len(),
{
    if s.len() > 0 && white_space(s.last()) {
        assert forall|k: int| 0 <= k < s.drop_last().len() implies s.drop_last()[k] != ',' by {
            assert(s.drop_last()[k] == s[k]);
        }
        trim_end_keeps_no_comma(s.drop_last());
    }
}

/// The pieces of a text between its commas, in order: one more than there are commas.
pub open spec fn comma_pieces(s: Seq<char>) -> Seq<Seq<char>>
    decreases s.len(),
{
    if s.len() == 0 {
        seq![Seq::empty()]
    } else {
        let before = comma_pieces(s.drop_last());
        if s.last() == ',' {
            before.push(Seq::empty())
        } else {
            before.update(before.len() - 1, before.last().push(s.last()))
        }
    }
}

/// The pieces, trimmed, without those that are then empty.
pub open spec fn kept_origins(pieces: Seq<Seq<char>>) -> Seq<Seq<char>>
    decreases pieces.len(),
{
    if pieces.len() == 0 {
        Seq::empty()
    } else {
        let before = kept_origins(pieces.drop_last());
        let t = trimmed(pieces.last());
        if t.len() == 0 {
            before
        } else {
            before.push(t)
        }
    }
}

/// The allowed origins that a comma-separated setting names.
pub open spec fn cors_origin_list(raw: Seq<char>) -> Seq<Seq<char>> {
    kept_origins(comma_pieces(raw))
}

/// Every entry holds at least one character and no comma.
pub open spec fn clean_origins(origins: Seq<Seq<char>>) -> bool {
    forall|k: int|
        0 <= k < origins.len() ==> #[trigger] origins[k].len() > 0 && !origins[k].contains(',')
}

/// Adds a piece of the setting, trimmed, unless it is then empty.
fn keep_piece(out: &mut Vec<String>, piece: &str)
    requires
        !piece@.contains(','),
        clean_origins(old(out).deep_view()),
    ensures
        clean_origins(final(out).deep_view()),
        final(out).deep_view() == (if trimmed(piece@).len() == 0 {
            old(out).deep_view()
        } else {
            old(out).deep_view().push(trimmed(piece@))
        }),
{
    let t = trim_text(piece);
    if !t.is_empty() {
        let ghost before = out.deep_view();
        out.push(String::from_str(t));
        assert(out.deep_view() =~= before.push(trimmed(piece@)));
        proof {
            trimmed_keeps_no_comma(piece@);
        }
    }
}

/// Reads the setting of allowed origins: the comma-separated entries,
/// trimmed, without the empty ones.
pub fn parse_cors_origins(raw: &str) -> (r: Vec<String>)
    ensures
        r.deep_view() == cors_origin_list(raw@),
        clean_origins(r.deep_view()),
{
    let n = raw.unicode_len();
    let mut out: Vec<String> = Vec::new();
    let mut start: usize = 0;
    let mut i: usize = 0;
    let ghost mut done: Seq<Seq<char>> = Seq::empty();
    assert(raw@.take(0) =~= Seq::<char>::empty());
    assert(out.deep_view() =~= Seq::<Seq<char>>::empty());
    while i < n
        invariant
            n == raw@.len(),
            start <= i <= n,
            comma_pieces(raw@.take(i as int)) == done.push(raw@.subrange(start as int, i as int)),
            out.deep_view() == kept_origins(done),
            clean_origins(out.deep_view()),
            forall|k: int| start <= k < i ==> raw@[k] != ',',
        decreases n - i,
    {
        let c = raw.get_char(i);
        let ghost pieces = comma_pieces(raw@.take(i as int));
        assert(raw@.take(i + 1).drop_last() =~= raw@.take(i as int));
        assert(raw@.take(i + 1).last() == c);
        if c == ',' {
            let piece = raw.substring_char(start, i);
            keep_piece(&mut out, piece);
            proof {
                assert(done.push(piece@).drop_last() =~= done);
                done = done.push(piece@);
                assert(raw@.subrange(i + 1, i + 1) =~= Seq::<char>::empty());
                assert(comma_pieces(raw@.take(i + 1)) =~= done.push(
                    raw@.subrange(i + 1, i + 1),
                ));
            }
            start = i + 1;
        } else {
            proof {
                assert(raw@.subrange(start as int, i + 1) =~= raw@.subrange(
                    start as int,
                    i as int,
                ).push(c));
                assert(comma_pieces(raw@.take(i + 1)) =~= done.push(
                    raw@.subrange(start as int, i + 1),
                ));
            }
        }
        i += 1;
    }
    let last = raw.substring_char(start, n);
    keep_piece(&mut out, last);
    proof {
        assert(raw@.take(n as int) =~= raw@);
        assert(done.push(last@).drop_last() =~= done);
    }
    out
}

// ----- whether an origin is allowed

/// What a character of an allowed origin becomes in its regular expression:
/// a dot matches itself only, and the wildcard matches any text.
pub open spec fn escaped_char(c: char) -> Seq<char> {
    if c == '.' {
        seq!['\\', '.']
    } else if c == '*' {
        seq!['.', '*']
    } else {
        seq![c]
    }
}

/// An allowed origin with its dots escaped and its wildcards made `.*`.
pub open spec fn escape_wildcards(s: Seq<char>) -> Seq<char>
    decreases s.len(),
{
    if s.len() == 0 {
        Seq::empty()
    } else {
        escape_wildcards(s.drop_last()) + escaped_char(s.last())
    }
}

/// The regular expression of an allowed origin that holds a wildcard,
/// anchored at both ends: `*.example.org` becomes `^.*\.example\.org$`.
pub open spec fn wildcard_regex(s: Seq<char>) -> Seq<char> {
    seq!['^'] + escape_wildcards(s) + seq!['$']
}

/// Writes the regular expression of an allowed origin that holds a wildcard.
pub fn wildcard_pattern(allowed: &str) -> (r: String)
    ensures
        r@ == wildcard_regex(allowed@),
{
    let n = allowed.unicode_len();
    proof {
        reveal_strlit("^");
        reveal_strlit("$");
    }
    let mut out = String::from_str("^");
    let mut i: usize = 0;
    assert(allowed@.take(0) =~= Seq::<char>::empty());
    while i < n
        invariant
            n == allowed@.len(),
            i <= n,
            out@ == seq!['^'] + escape_wildcards(allowed@.take(i as int)),
        decreases n - i,
    {
        proof {
            reveal_strlit("\\.");
            reveal_strlit(".*");
        }
        let c = allowed.get_char(i);
        assert(allowed@.take(i + 1).drop_last() =~= allowed@.take(i as int));
        if c == '.' {
            out.append("\\.");
        } else if c == '*' {
            out.append(".*");
        } else {
            let one = allowed.substring_char(i, i + 1);
            assert(one@ =~= seq![c]);
            out.append(one);
        }
        assert(escape_wildcards(allowed@.take(i + 1)) == escape_wildcards(allowed@.take(i as int))
            + escaped_char(c));
        assert(out@ =~= seq!['^'] + escape_wildcards(allowed@.take(i + 1)));
        i += 1;
    }
    out.append("$");
    assert(allowed@.take(n as int) =~= allowed@);
    assert(out@ =~= wildcard_regex(allowed@));
    out
}

/// Whether `regex::Regex::new` accepts a pattern.
pub uninterp spec fn regex_compiles(pattern: Seq<char>) -> bool;

/// What `Regex::is_match` returns for the regex of a pattern and a text:
/// whether the regex matches somewhere in the text.
pub uninterp spec fn regex_is_match(pattern: Seq<char>, haystack: Seq<char>) -> bool;

/// Calls `regex::Regex::new` on the pattern and, where it succeeds,
/// `Regex::is_match` on the text. Claimed: the result is `None` exactly where
/// the pattern does not compile, and otherwise whether it matches; both are
/// functions of the pattern and the text alone. Which patterns compile and
/// what they match is not stated.
#[verifier::external_body]
fn regex_match(pattern: &str, haystack: &str) -> (r: Option<bool>)
    ensures
        r is Some <==> regex_compiles(pattern@),
        r matches Some(b) ==> b == regex_is_match(pattern@, haystack@),
{
    match regex::Regex::new(pattern) {
        Ok(re) => Some(re.is_match(haystack)),
        Err(_) => None,
    }
}

/// The entry that allows every origin.
pub open spec fn any_origin() -> Seq<char> {
    seq!['*']
}

/// Whether the list holds the entry `*`, which allows every origin.
pub fn allows_any_origin(origins: &Vec<String>) -> (r: bool)
    ensures
        r == origins.deep_view().contains(any_origin()),
{
    let mut i: usize = 0;
    while i < origins.len()
        invariant
            i <= origins.len(),
            forall|j: int| 0 <= j < i ==> origins.deep_view()[j] != any_origin(),
        decreases origins.len() - i,
    {
        proof {
            reveal_strlit("*");
            assert("*"@ =~= any_origin());
        }
        assert(origins.deep_view()[i as int] == origins[i as int]@);
        if same_text(origins[i].as_str(), "*") {
            assert(origins.deep_view()[i as int] == any_origin());
            return true;
        }
        i += 1;
    }
    false
}

/// Goes through the allowed origins in order: an entry with a wildcard allows
/// the origin where its regular expression matches it, an entry without one
/// where it is the origin; the first entry that allows it decides. A wildcard
/// entry whose expression does not compile, reached before that, leaves the
/// question undecided (`None`).
pub open spec fn origin_scan(origins: Seq<Seq<char>>, origin: Seq<char>) -> Option<bool>
    decreases origins.len(),
{
    if origins.len() == 0 {
        Some(false)
    } else {
        let a = origins[0];
        if a.contains('*') {
            let p = wildcard_regex(a);
            if !regex_compiles(p) {
                None
            } else if regex_is_match(p, origin) {
                Some(true)
            } else {
                origin_scan(origins.drop_first(), origin)
            }
        } else if a == origin {
            Some(true)
        } else {
            origin_scan(origins.drop_first(), origin)
        }
    }
}

/// Whether the origin is allowed: every origin where the list holds `*`,
/// else as `origin_scan` decides.
pub open spec fn origin_verdict(origins: Seq<Seq<char>>, origin: Seq<char>) -> Option<bool> {
    if origins.contains(any_origin()) {
        Some(true)
    } else {
        origin_scan(origins, origin)
    }
}

/// What the regular expression of a wildcard entry says of an origin:
/// `None` where it does not compile, else whether it matches.
pub open spec fn wildcard_outcome(entry: Seq<char>, origin: Seq<char>) -> Option<bool> {
    if regex_compiles(wildcard_regex(entry)) {
        Some(regex_is_match(wildcard_regex(entry), origin))
    } else {
        None
    }
}

/// The outcome given for the entry at `k` (none counts as `None`).
pub open spec fn outcome_at(outcomes: Seq<Option<bool>>, k: int) -> Option<bool> {
    if 0 <= k < outcomes.len() {
        outcomes[k]
    } else {
        None
    }
}

/// Goes through the allowed origins from the one at `k` on, in order, as
/// `origin_scan` does, with `outcomes` giving for each wildcard entry what
/// its regular expression says of the origin.
pub open spec fn scan_given(
    origins: Seq<Seq<char>>,
    origin: Seq<char>,
    outcomes: Seq<Option<bool>>,
    k: int,
) -> Option<bool>
    decreases origins.len() - k,
{
    if k < 0 || k >= origins.len() {
        Some(false)
    } else if origins[k].contains('*') {
        match outcome_at(outcomes, k) {
            Some(true) => Some(true),
            Some(false) => scan_given(origins, origin, outcomes, k + 1),
            None => None,
        }
    } else if origins[k] == origin {
        Some(true)
    } else {
        scan_given(origins, origin, outcomes, k + 1)
    }
}

/// Whether the origin is allowed, given what each wildcard entry's regular
/// expression says of it: every origin where the list holds `*`, else as
/// `scan_given` decides.
pub open spec fn origin_verdict_given(
    origins: Seq<Seq<char>>,
    origin: Seq<char>,
    outcomes: Seq<Option<bool>>,
) -> Option<bool> {
    if origins.contains(any_origin()) {
        Some(true)
    } else {
        scan_given(origins, origin, outcomes, 0)
    }
}

/// With the outcomes that the regular expressions give, the scan from `k`
/// on is the scan of the entries from `k` on.
proof fn scan_given_is_scan(
    origins: Seq<Seq<char>>,
    origin: Seq<char>,
    outcomes: Seq<Option<bool>>,
    k: int,
)
    requires
        0 <= k <= origins.len(),
        forall|j: int|
            0 <= j < origins.len() && origins[j].contains('*') ==> #[trigger] outcome_at(
                outcomes,
                j,
            ) == wildcard_outcome(origins[j], origin),
    ensures
        origin_scan(origins.skip(k), origin) == scan_given(origins, origin, outcomes, k),
    decreases origins.len() - k,
{
    if k < origins.len() {
        scan_given_is_scan(origins, origin, outcomes, k + 1);
        assert(origins.skip(k).drop_first() =~= origins.skip(k + 1));
        assert(origins.skip(k)[0] == origins[k]);
        if origins[k].contains('*') {
            assert(outcome_at(outcomes, k) == wildcard_outcome(origins[k], origin));
        }
    }
}

/// Decides whether a browser origin may call the service, given for each
/// entry with a wildcard what its regular expression says of the origin
/// (`None` where it does not compile); `origin` is the text of the request's
/// `Origin` header.
pub fn origin_allowed_given(
    origins: &Vec<String>,
    origin: &str,
    outcomes: &Vec<Option<bool>>,
) -> (r: Option<bool>)
    ensures
        r == origin_verdict_given(origins.deep_view(), origin@, outcomes@),
{
    if allows_any_origin(origins) {
        return Some(true);
    }
    let ghost all = origins.deep_view();
    let mut i: usize = 0;
    while i < origins.len()
        invariant
            all == origins.deep_view(),
            !all.contains(any_origin()),
            i <= origins.len(),
            scan_given(all, origin@, outcomes@, 0) == scan_given(all, origin@, outcomes@, i as int),
        decreases origins.len() - i,
    {
        let allowed = origins[i].as_str();
        assert(all[i as int] == allowed@);
        if has_wildcard(allowed) {
            let o = if i < outcomes.len() { outcomes[i] } else { None };
            assert(o == outcome_at(outcomes@, i as int));
            match o {
                None => return None,
                Some(true) => return Some(true),
                Some(false) => {},
            }
        } else if same_text(allowed, origin) {
            return Some(true);
        }
        i += 1;
    }
    Some(false)
}

/// Decides whether a browser origin may call the service; `origin` is the
/// text of the request's `Origin` header (empty where it is not visible
/// ASCII). `None` where a wildcard entry reached before a decision is no
/// valid regular expression, so that no answer can be given.
pub fn origin_allowed(origins: &Vec<String>, origin: &str) -> (r: Option<bool>)
    ensures
        r == origin_verdict(origins.deep_view(), origin@),
{
    if allows_any_origin(origins) {
        return Some(true);
    }
    let ghost all = origins.deep_view();
    let mut outcomes: Vec<Option<bool>> = Vec::new();
    let mut i: usize = 0;
    while i < origins.len()
        invariant
            all == origins.deep_view(),
            i <= origins.len(),
            outcomes@.len() == i,
            forall|j: int|
                0 <= j < i && all[j].contains('*') ==> #[trigger] outcome_at(outcomes@, j)
                    == wildcard_outcome(all[j], origin@),
        decreases origins.len() - i,
    {
        let allowed = origins[i].as_str();
        assert(all[i as int] == allowed@);
        let o = if has_wildcard(allowed) {
            let pattern = wildcard_pattern(allowed);
            regex_match(pattern.as_str(), origin)
        } else {
            None
        };
        let ghost prev = outcomes@;
        outcomes.push(o);
        assert forall|j: int|
            0 <= j < i + 1 && all[j].contains('*') implies #[trigger] outcome_at(outcomes@, j)
            == wildcard_outcome(all[j], origin@) by {
            if j < i {
                assert(outcome_at(prev, j) == outcome_at(outcomes@, j));
            }
        }
        i += 1;
    }
    proof {
        scan_given_is_scan(all, origin@, outcomes@, 0);
        assert(all.skip(0) =~= all);
    }
    origin_allowed_given(origins, origin, &outcomes)
}

} // verus!
