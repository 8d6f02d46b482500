//! Text helpers. Every function states its result over `Seq<char>`.

use vstd::prelude::*;

verus! {

/// `String::push` appends the character to the end of the string.
pub assume_specification[ String::push ](s: &mut String, c: char)
    ensures
        final(s)@ == old(s)@.push(c),
;

/// What is told of bytes that are not valid UTF-8.
pub uninterp spec fn utf8_fault(bytes: Seq<u8>) -> Seq<char>;

/// `std::str::from_utf8` accepts exactly the valid UTF-8 byte strings and
/// yields the characters that they encode. The text of its error depends on the
/// bytes alone.
#[verifier::external_body]
pub(crate) fn read_utf8(bytes: &[u8]) -> (r: Result<String, String>)
    ensures
        match r {
            Ok(s) => vstd::utf8::valid_utf8(bytes@) && s@ == vstd::utf8::decode_utf8(bytes@),
            Err(e) => !vstd::utf8::valid_utf8(bytes@) && e@ == utf8_fault(bytes@),
        },
{
    match std::str::from_utf8(bytes) {
        Ok(s) => Ok(s.to_owned()),
        Err(e) => Err(e.to_string()),
    }
}

/// The text that bytes encode, if they are valid UTF-8.
pub(crate) fn utf8_text(bytes: &[u8]) -> (r: Option<String>)
    ensures
        r is Some <==> vstd::utf8::valid_utf8(bytes@),
        r matches Some(s) ==> s@ == vstd::utf8::decode_utf8(bytes@),
{
    match read_utf8(bytes) {
        Ok(s) => Some(s),
        Err(_) => None,
    }
}

/// The text that `bytes` encode, if they are valid UTF-8.
pub open spec fn utf8(bytes: Seq<u8>) -> Option<Seq<char>> {
    if vstd::utf8::valid_utf8(bytes) {
        Some(vstd::utf8::decode_utf8(bytes))
    } else {
        None
    }
}

/// The UTF-8 encoding of `s`.
pub open spec fn bytes_of(s: Seq<char>) -> Seq<u8> {
    vstd::utf8::encode_utf8(s)
}

/// The texts that a list of strings holds.
pub open spec fn views(v: Seq<String>) -> Seq<Seq<char>> {
    v.map_values(|s: String| s@)
}

/// The text that an optional string holds.
pub open spec fn opt_view(s: Option<String>) -> Option<Seq<char>> {
    match s {
        Some(t) => Some(t@),
        None => None,
    }
}

// ---------------------------------------------------------------------------
// Characters

/// The characters with the Unicode property White_Space.
pub open spec fn is_whitespace(c: char) -> bool {
    let u = c as u32;
    ||| 0x9 <= u <= 0xd
    ||| u == 0x20
    ||| u == 0x85
    ||| u == 0xa0
    ||| u == 0x1680
    ||| 0x2000 <= u <= 0x200a
    ||| u == 0x2028
    ||| u == 0x2029
    ||| u == 0x202f
    ||| u == 0x205f
    ||| u == 0x3000
}

fn whitespace(c: char) -> (r: bool)
    ensures
        r == is_whitespace(c),
{
    let u: u32 = c as u32;
    (0x9 <= u && u <= 0xd) || u == 0x20 || u == 0x85 || u == 0xa0 || u == 0x1680 || (0x2000 <= u
        && u <= 0x200a) || u == 0x2028 || u == 0x2029 || u == 0x202f || u == 0x205f || u == 0x3000
}

/// The lower case form of an ASCII letter; any other character is itself.
pub open spec fn lower_char(c: char) -> char {
    if 'A' <= c && c <= 'Z' {
        ((c as u32 + 32) as u32) as char
    } else {
        c
    }
}

fn to_lower_char(c: char) -> (r: char)
    ensures
        r == lower_char(c),
{
    if 'A' <= c && c <= 'Z' {
        let u: u8 = c as u8;
        (u + 32) as char
    } else {
        c
    }
}

/// The upper case form of an ASCII letter; any other character is itself.
pub open spec fn upper_char(c: char) -> char {
    if 'a' <= c && c <= 'z' {
        ((c as u32 - 32) as u32) as char
    } else {
        c
    }
}

fn to_upper_char(c: char) -> (r: char)
    ensures
        r == upper_char(c),
{
    if 'a' <= c && c <= 'z' {
        let u: u8 = c as u8;
        (u - 32) as char
    } else {
        c
    }
}

/// The decimal digits.
pub open spec fn is_digit(c: char) -> bool {
    '0' <= c && c <= '9'
}

/// The character of a decimal digit.
pub open spec fn digit(d: nat) -> char {
    ((48 + d) as u32) as char
}

/// The value of a decimal digit.
pub open spec fn digit_value(c: char) -> int {
    c as int - 48
}

// ---------------------------------------------------------------------------
// Conversions

/// The characters of `s`, in order.
pub fn to_chars(s: &str) -> (r: Vec<char>)
    ensures
        r@ == s@,
{
    let mut v: Vec<char> = Vec::new();
    for c in it: s.chars()
        invariant
            v@ == it.seq().take(it.index() as int),
            it.seq() == s@,
    {
        v.push(c);
        assert(it.seq().take(it.index() + 1) =~= it.seq().take(it.index() as int).push(c));
    }
    assert(v@ =~= s@);
    v
}

/// The string made of `v[from..to]`.
pub fn from_chars(v: &Vec<char>, from: usize, to: usize) -> (r: String)
    requires
        from <= to <= v@.len(),
    ensures
        r@ == v@.subrange(from as int, to as int),
{
    let mut out: String = String::new();
    let mut i: usize = from;
    while i < to
        invariant
            from <= i <= to <= v@.len(),
            out@ == v@.subrange(from as int, i as int),
        decreases to - i,
    {
        out.push(v[i]);
        assert(v@.subrange(from as int, i + 1) =~= v@.subrange(from as int, i as int).push(
            v@[i as int],
        ));
        i = i + 1;
    }
    out
}

/// The UTF-8 encoding of `s` as an owned buffer.
pub fn to_bytes(s: &str) -> (r: Vec<u8>)
    ensures
        r@ == bytes_of(s@),
{
    let b = s.as_bytes();
    let mut out: Vec<u8> = Vec::new();
    out.extend_from_slice(b);
    assert(out@ =~= b@);
    out
}

/// Whether two texts are equal.
pub fn same(a: &str, b: &str) -> (r: bool)
    ensures
        r == (a@ == b@),
{
    let x: String = a.to_owned();
    let y: String = b.to_owned();
    x == y
}

/// `a` followed by `b`.
pub fn cat(a: &str, b: &str) -> (r: String)
    ensures
        r@ == a@ + b@,
{
    let mut out: String = a.to_owned();
    out.append(b);
    out
}

/// `a`, `b` and `c`, one after the other.
pub fn cat3(a: &str, b: &str, c: &str) -> (r: String)
    ensures
        r@ == a@ + b@ + c@,
{
    let mut out: String = a.to_owned();
    out.append(b);
    out.append(c);
    out
}

/// A copy of `v`.
pub fn clone_strings(v: &Vec<String>) -> (r: Vec<String>)
    ensures
        views(r@) == views(v@),
        r@ == v@,
{
    let mut out: Vec<String> = Vec::new();
    let mut i: usize = 0;
    while i < v.len()
        invariant
            i <= v@.len(),
            out@ == v@.take(i as int),
        decreases v@.len() - i,
    {
        out.push(v[i].clone());
        assert(v@.take(i + 1) =~= v@.take(i as int).push(v@[i as int]));
        i = i + 1;
    }
    assert(out@ =~= v@);
    out
}

/// A copy of `s`.
pub fn clone_opt(s: &Option<String>) -> (r: Option<String>)
    ensures
        r == s,
{
    match s {
        Some(t) => Some(t.clone()),
        None => None,
    }
}

// ---------------------------------------------------------------------------
// Case

/// `s` with ASCII letters in lower case.
pub open spec fn lower(s: Seq<char>) -> Seq<char> {
    s.map_values(|c: char| lower_char(c))
}

/// `s` with ASCII letters in upper case.
pub open spec fn upper(s: Seq<char>) -> Seq<char> {
    s.map_values(|c: char| upper_char(c))
}

/// `s` with ASCII letters in lower case.
pub fn to_lower(s: &str) -> (r: String)
    ensures
        r@ == lower(s@),
{
    let cs = to_chars(s);
    let mut out: String = String::new();
    let mut i: usize = 0;
    while i < cs.len()
        invariant
            i <= cs@.len(),
            out@ == lower(cs@.take(i as int)),
        decreases cs@.len() - i,
    {
        out.push(to_lower_char(cs[i]));
        assert(lower(cs@.take(i + 1)) =~= lower(cs@.take(i as int)).push(
            lower_char(cs@[i as int]),
        ));
        i = i + 1;
    }
    assert(cs@.take(i as int) =~= s@);
    out
}

/// `s` with ASCII letters in upper case.
pub fn to_upper(s: &str) -> (r: String)
    ensures
        r@ == upper(s@),
{
    let cs = to_chars(s);
    let mut out: String = String::new();
    let mut i: usize = 0;
    while i < cs.len()
        invariant
            i <= cs@.len(),
            out@ == upper(cs@.take(i as int)),
        decreases cs@.len() - i,
    {
        out.push(to_upper_char(cs[i]));
        assert(upper(cs@.take(i + 1)) =~= upper(cs@.take(i as int)).push(
            upper_char(cs@[i as int]),
        ));
        i = i + 1;
    }
    assert(cs@.take(i as int) =~= s@);
    out
}

/// Whether two texts differ at most in the case of ASCII letters.
pub open spec fn same_ignoring_case(a: Seq<char>, b: Seq<char>) -> bool {
    lower(a) == lower(b)
}

/// Whether two texts differ at most in the case of ASCII letters.
pub fn eq_ignore_case(a: &str, b: &str) -> (r: bool)
    ensures
        r == same_ignoring_case(a@, b@),
{
    to_lower(a) == to_lower(b)
}

// ---------------------------------------------------------------------------
// Trimming

/// `s` without leading white space.
pub open spec fn trim_start(s: Seq<char>) -> Seq<char>
    decreases s.len(),
{
    if s.len() > 0 && is_whitespace(s[0]) {
        trim_start(s.skip(1))
    } else {
        s
    }
}

/// `s` without trailing white space.
pub open spec fn trim_end(s: Seq<char>) -> Seq<char>
    decreases s.len(),
{
    if s.len() > 0 && is_whitespace(s.last()) {
        trim_end(s.drop_last())
    } else {
        s
    }
}

/// `s` without leading and trailing white space.
pub open spec fn trimmed(s: Seq<char>) -> Seq<char> {
    trim_end(trim_start(s))
}

/// `s` without leading and trailing white space.
pub fn trim(s: &str) -> (r: String)
    ensures
        r@ == trimmed(s@),
{
    let cs = to_chars(s);
    let mut lo: usize = 0;
    assert(cs@.skip(0) =~= cs@);
    while lo < cs.len() && whitespace(cs[lo])
        invariant
            lo <= cs@.len(),
            trim_start(cs@) == trim_start(cs@.skip(lo as int)),
        decreases cs@.len() - lo,
    {
        assert(cs@.skip(lo as int).skip(1) =~= cs@.skip(lo + 1));
        lo = lo + 1;
    }
    assert(trim_start(cs@) == cs@.skip(lo as int));
    let mut hi: usize = cs.len();
    assert(cs@.subrange(lo as int, hi as int) =~= cs@.skip(lo as int));
    while hi > lo && whitespace(cs[hi - 1])
        invariant
            lo <= hi <= cs@.len(),
            trim_end(cs@.skip(lo as int)) == trim_end(cs@.subrange(lo as int, hi as int)),
        decreases hi,
    {
        assert(cs@.subrange(lo as int, hi as int).drop_last() =~= cs@.subrange(
            lo as int,
            hi - 1,
        ));
        hi = hi - 1;
    }
    from_chars(&cs, lo, hi)
}

// ---------------------------------------------------------------------------
// Searching

/// Whether `pat` stands in `s` at position `i`.
pub open spec fn occurs_at(s: Seq<char>, pat: Seq<char>, i: int) -> bool {
    &&& 0 <= i
    &&& i + pat.len() <= s.len()
    &&& s.subrange(i, i + pat.len()) == pat
}

/// Whether `pat` stands somewhere in `s`.
pub open spec fn contains(s: Seq<char>, pat: Seq<char>) -> bool {
    exists|i: int| occurs_at(s, pat, i)
}

/// Whether `s` begins with `pat`.
pub open spec fn begins_with(s: Seq<char>, pat: Seq<char>) -> bool {
    pat.len() <= s.len() && s.take(pat.len() as int) == pat
}

/// Whether `s` ends with `pat`.
pub open spec fn finishes_with(s: Seq<char>, pat: Seq<char>) -> bool {
    pat.len() <= s.len() && s.skip(s.len() - pat.len()) == pat
}

/// The first position from `from` on at which `pat` stands in `s`.
pub open spec fn find_from(s: Seq<char>, pat: Seq<char>, from: int) -> Option<int>
    decreases s.len() - from + 1,
{
    if from < 0 || from + pat.len() > s.len() {
        None
    } else if occurs_at(s, pat, from) {
        Some(from)
    } else {
        find_from(s, pat, from + 1)
    }
}

/// The first position at which `pat` stands in `s`.
pub open spec fn find(s: Seq<char>, pat: Seq<char>) -> Option<int> {
    find_from(s, pat, 0)
}

/// `find_from` gives the least position, and none only if there is none.
pub proof fn lemma_find_from(s: Seq<char>, pat: Seq<char>, from: int)
    requires
        0 <= from,
    ensures
        match find_from(s, pat, from) {
            Some(i) => from <= i && occurs_at(s, pat, i) && forall|j: int|
                from <= j < i ==> !occurs_at(s, pat, j),
            None => forall|j: int| from <= j ==> !occurs_at(s, pat, j),
        },
    decreases s.len() - from + 1,
{
    if from + pat.len() > s.len() {
    } else if occurs_at(s, pat, from) {
    } else {
        lemma_find_from(s, pat, from + 1);
    }
}

/// A position with nothing before it is the first.
pub proof fn lemma_find_is(s: Seq<char>, pat: Seq<char>, from: int, i: int)
    requires
        0 <= from <= i,
        occurs_at(s, pat, i),
        forall|j: int| from <= j < i ==> !occurs_at(s, pat, j),
    ensures
        find_from(s, pat, from) == Some(i),
    decreases i - from,
{
    if from < i {
        assert(!occurs_at(s, pat, from));
        lemma_find_is(s, pat, from + 1, i);
    }
}

fn occurs(s: &Vec<char>, pat: &Vec<char>, i: usize) -> (r: bool)
    requires
        i + pat@.len() <= s@.len(),
    ensures
        r == occurs_at(s@, pat@, i as int),
{
    let mut k: usize = 0;
    let n: usize = s.len();
    while k < pat.len()
        invariant
            k <= pat@.len(),
            i + pat@.len() <= s@.len() == n,
            forall|j: int| 0 <= j < k ==> s@[i + j] == pat@[j],
        decreases pat@.len() - k,
    {
        if s[i + k] != pat[k] {
            assert(s@.subrange(i as int, i + pat@.len())[k as int] != pat@[k as int]);
            return false;
        }
        k = k + 1;
    }
    assert(s@.subrange(i as int, i + pat@.len()) =~= pat@);
    true
}

/// The first position from `from` on at which `pat` stands in `s`.
pub fn find_chars(s: &Vec<char>, pat: &Vec<char>, from: usize) -> (r: Option<usize>)
    requires
        from <= s@.len(),
    ensures
        match r {
            Some(i) => find_from(s@, pat@, from as int) == Some(i as int) && i + pat@.len()
                <= s@.len() && from <= i,
            None => find_from(s@, pat@, from as int) is None,
        },
{
    let mut i: usize = from;
    if pat.len() > s.len() {
        return None;
    }
    let top: usize = s.len() - pat.len();
    while i <= top
        invariant
            from <= i <= s@.len(),
            top == s@.len() - pat@.len(),
            find_from(s@, pat@, from as int) == find_from(s@, pat@, i as int),
        decreases s@.len() - i,
    {
        if occurs(s, pat, i) {
            return Some(i);
        }
        if i == top {
            assert(find_from(s@, pat@, i + 1) is None);
            return None;
        }
        i = i + 1;
    }
    None
}

/// Whether `pat` stands somewhere in `s`.
pub fn has(s: &str, pat: &str) -> (r: bool)
    ensures
        r == contains(s@, pat@),
{
    let cs = to_chars(s);
    let ps = to_chars(pat);
    let found = find_chars(&cs, &ps, 0);
    proof {
        lemma_find_from(cs@, ps@, 0);
    }
    match found {
        Some(i) => {
            assert(occurs_at(s@, pat@, i as int));
            true
        },
        None => false,
    }
}

/// Whether `s` begins with `pat`.
pub fn starts_with(s: &str, pat: &str) -> (r: bool)
    ensures
        r == begins_with(s@, pat@),
{
    let cs = to_chars(s);
    let ps = to_chars(pat);
    if ps.len() > cs.len() {
        return false;
    }
    assert(s@.take(pat@.len() as int) =~= s@.subrange(0, pat@.len() as int));
    occurs(&cs, &ps, 0)
}

/// Whether `s` ends with `pat`.
pub fn ends_with(s: &str, pat: &str) -> (r: bool)
    ensures
        r == finishes_with(s@, pat@),
{
    let cs = to_chars(s);
    let ps = to_chars(pat);
    if ps.len() > cs.len() {
        return false;
    }
    let at: usize = cs.len() - ps.len();
    assert(s@.skip(s@.len() - pat@.len()) =~= s@.subrange(at as int, at + pat@.len()));
    occurs(&cs, &ps, at)
}

/// What follows `pat` at the start of `s`.
pub open spec fn after_prefix(s: Seq<char>, pat: Seq<char>) -> Option<Seq<char>> {
    if begins_with(s, pat) {
        Some(s.skip(pat.len() as int))
    } else {
        None
    }
}

/// What follows `pat` at the start of `s`.
pub fn strip_prefix(s: &str, pat: &str) -> (r: Option<String>)
    ensures
        opt_view(r) == after_prefix(s@, pat@),
{
    if !starts_with(s, pat) {
        return None;
    }
    let cs = to_chars(s);
    let ps = to_chars(pat);
    let out = from_chars(&cs, ps.len(), cs.len());
    assert(out@ =~= s@.skip(pat@.len() as int));
    Some(out)
}

/// What stands before `pat` at the end of `s`.
pub open spec fn before_suffix(s: Seq<char>, pat: Seq<char>) -> Option<Seq<char>> {
    if finishes_with(s, pat) {
        Some(s.take(s.len() - pat.len()))
    } else {
        None
    }
}

/// What stands before `pat` at the end of `s`.
pub fn strip_suffix(s: &str, pat: &str) -> (r: Option<String>)
    ensures
        opt_view(r) == before_suffix(s@, pat@),
{
    if !ends_with(s, pat) {
        return None;
    }
    let cs = to_chars(s);
    let ps = to_chars(pat);
    let out = from_chars(&cs, 0, cs.len() - ps.len());
    assert(out@ =~= s@.take(s@.len() - pat@.len()));
    Some(out)
}

/// What stands before and after the first `sep` in `s`.
pub open spec fn split_first(s: Seq<char>, sep: Seq<char>) -> Option<(Seq<char>, Seq<char>)> {
    match find(s, sep) {
        Some(i) => Some((s.take(i), s.skip(i + sep.len()))),
        None => None,
    }
}

/// A pair of strings as a pair of texts.
pub open spec fn pair_view(p: Option<(String, String)>) -> Option<(Seq<char>, Seq<char>)> {
    match p {
        Some((a, b)) => Some((a@, b@)),
        None => None,
    }
}

/// What stands before and after the first `sep` in `s`.
pub fn split_once(s: &str, sep: &str) -> (r: Option<(String, String)>)
    ensures
        pair_view(r) == split_first(s@, sep@),
{
    let cs = to_chars(s);
    let ps = to_chars(sep);
    let n: usize = cs.len();
    match find_chars(&cs, &ps, 0) {
        Some(i) => {
            let a = from_chars(&cs, 0, i);
            let b = from_chars(&cs, i + ps.len(), n);
            assert(a@ =~= s@.take(i as int));
            assert(b@ =~= s@.skip(i + sep@.len()));
            Some((a, b))
        },
        None => None,
    }
}

/// The position of the last `c` in `s`.
pub open spec fn rfind_char(s: Seq<char>, c: char) -> Option<int>
    decreases s.len(),
{
    if s.len() == 0 {
        None
    } else if s.last() == c {
        Some(s.len() - 1)
    } else {
        rfind_char(s.drop_last(), c)
    }
}

/// What stands before and after the last `c` in `s`.
pub open spec fn split_last(s: Seq<char>, c: char) -> Option<(Seq<char>, Seq<char>)> {
    match rfind_char(s, c) {
        Some(i) => Some((s.take(i), s.skip(i + 1))),
        None => None,
    }
}

/// `rfind_char` gives the greatest position, and none only if there is none.
pub proof fn lemma_rfind_char(s: Seq<char>, c: char)
    ensures
        match rfind_char(s, c) {
            Some(i) => 0 <= i < s.len() && s[i] == c && forall|j: int|
                i < j < s.len() ==> s[j] != c,
            None => forall|j: int| 0 <= j < s.len() ==> s[j] != c,
        },
    decreases s.len(),
{
    if s.len() > 0 && s.last() != c {
        lemma_rfind_char(s.drop_last(), c);
        assert forall|j: int| 0 <= j < s.len() - 1 implies s[j] == s.drop_last()[j] by {}
    }
}

/// What stands before and after the last `c` in `s`.
pub fn rsplit_once(s: &str, c: char) -> (r: Option<(String, String)>)
    ensures
        pair_view(r) == split_last(s@, c),
{
    let cs = to_chars(s);
    let mut i: usize = cs.len();
    assert(cs@.take(i as int) =~= s@);
    while i > 0
        invariant
            i <= cs@.len(),
            cs@ == s@,
            rfind_char(s@, c) == rfind_char(cs@.take(i as int), c),
        decreases i,
    {
        assert(cs@.take(i as int).drop_last() =~= cs@.take(i - 1));
        if cs[i - 1] == c {
            let a = from_chars(&cs, 0, i - 1);
            let b = from_chars(&cs, i, cs.len());
            assert(a@ =~= s@.take(i - 1));
            assert(b@ =~= s@.skip(i as int));
            return Some((a, b));
        }
        i = i - 1;
    }
    None
}

// ---------------------------------------------------------------------------
// Splitting and joining

/// The pieces of `s` between the occurrences of `sep`, taken from the left.
pub open spec fn split(s: Seq<char>, sep: Seq<char>) -> Seq<Seq<char>>
    decreases s.len(),
{
    match find(s, sep) {
        Some(i) => if 0 <= i && i + sep.len() <= s.len() && sep.len() > 0 {
            seq![s.take(i)] + split(s.skip(i + sep.len()), sep)
        } else {
            seq![s]
        },
        None => seq![s],
    }
}

/// The pieces of `s` between the occurrences of `sep`, taken from the left.
pub fn split_on(s: &str, sep: &str) -> (r: Vec<String>)
    requires
        sep@.len() > 0,
    ensures
        views(r@) == split(s@, sep@),
        r@.len() > 0,
{
    let cs = to_chars(s);
    let ps = to_chars(sep);
    let n: usize = cs.len();
    let mut out: Vec<String> = Vec::new();
    let mut at: usize = 0;
    assert(cs@.skip(0) =~= cs@);
    assert(views(out@) + split(cs@.skip(0), ps@) =~= split(cs@, ps@));
    loop
        invariant_except_break
            at <= n == cs@.len(),
            ps@.len() > 0,
            views(out@) + split(cs@.skip(at as int), ps@) == split(cs@, ps@),
        ensures
            views(out@) == split(cs@, ps@),
            out@.len() > 0,
        decreases n - at,
    {
        let rest = from_chars(&cs, at, n);
        assert(rest@ =~= cs@.skip(at as int));
        match split_once(rest.as_str(), sep_text(&ps).as_str()) {
            Some((a, b)) => {
                let ghost old_out = out@;
                let ghost i = find(rest@, ps@)->0;
                proof {
                    lemma_find_from(rest@, ps@, 0);
                }
                out.push(a);
                let next: usize = n - count(b.as_str());
                proof {
                    assert(b@ == rest@.skip(i + ps@.len()));
                    assert(cs@.skip(next as int) =~= b@);
                    assert(views(out@) =~= views(old_out).push(rest@.take(i)));
                    assert(views(old_out) + (seq![rest@.take(i)] + split(b@, ps@)) =~= views(out@)
                        + split(b@, ps@));
                }
                at = next;
            },
            None => {
                let ghost old_out = out@;
                proof {
                    lemma_find_from(rest@, ps@, 0);
                }
                out.push(rest);
                assert(views(out@) =~= views(old_out) + seq![cs@.skip(at as int)]);
                break;
            },
        }
    }
    out
}

fn sep_text(v: &Vec<char>) -> (r: String)
    ensures
        r@ == v@,
{
    let r = from_chars(v, 0, v.len());
    assert(r@ =~= v@);
    r
}

/// The number of characters of `s`.
pub fn count(s: &str) -> (n: usize)
    ensures
        n == s@.len(),
{
    s.unicode_len()
}

/// `s` without one trailing carriage return.
pub open spec fn without_cr(s: Seq<char>) -> Seq<char> {
    if s.len() > 0 && s.last() == '\r' {
        s.drop_last()
    } else {
        s
    }
}

/// The lines of `s`: each ends at a line feed, or at the end of the text.
pub open spec fn lines_of(s: Seq<char>) -> Seq<Seq<char>>
    decreases s.len(),
{
    match find(s, seq!['\n']) {
        Some(i) => if 0 <= i < s.len() {
            seq![without_cr(s.take(i))] + lines_of(s.skip(i + 1))
        } else {
            seq![]
        },
        None => if s.len() == 0 {
            seq![]
        } else {
            seq![s]
        },
    }
}

/// The lines of `s`: each ends at a line feed, or at the end of the text.
pub fn lines(s: &str) -> (r: Vec<String>)
    ensures
        views(r@) == lines_of(s@),
{
    let cs = to_chars(s);
    let mut nl: Vec<char> = Vec::new();
    nl.push('\n');
    assert(nl@ =~= seq!['\n']);
    let n: usize = cs.len();
    let mut out: Vec<String> = Vec::new();
    let mut at: usize = 0;
    assert(cs@.skip(0) =~= cs@);
    assert(views(out@) + lines_of(cs@.skip(0)) =~= lines_of(cs@));
    loop
        invariant_except_break
            at <= n == cs@.len(),
            nl@ == seq!['\n'],
            views(out@) + lines_of(cs@.skip(at as int)) == lines_of(cs@),
        ensures
            views(out@) == lines_of(cs@),
        decreases n - at,
    {
        let rest = to_chars(from_chars(&cs, at, n).as_str());
        let ghost old_out = out@;
        assert(rest@ =~= cs@.skip(at as int));
        proof {
            lemma_find_from(rest@, nl@, 0);
        }
        match find_chars(&rest, &nl, 0) {
            Some(i) => {
                let stop: usize = if i > 0 && rest[i - 1] == '\r' {
                    i - 1
                } else {
                    i
                };
                let line = from_chars(&rest, 0, stop);
                assert(line@ =~= without_cr(rest@.take(i as int)));
                out.push(line);
                assert(views(out@) =~= views(old_out).push(line@));
                assert(cs@.skip(at + i + 1) =~= rest@.skip(i + 1));
                assert(views(old_out) + (seq![line@] + lines_of(rest@.skip(i + 1))) =~= views(out@)
                    + lines_of(rest@.skip(i + 1)));
                at = at + i + 1;
            },
            None => {
                if rest.len() > 0 {
                    let line = from_chars(&rest, 0, rest.len());
                    assert(line@ =~= rest@);
                    out.push(line);
                    assert(views(out@) =~= views(old_out) + seq![rest@]);
                } else {
                    assert(views(old_out) + Seq::<Seq<char>>::empty() =~= views(old_out));
                }
                break;
            },
        }
    }
    out
}

/// The number of leading characters of `s` that are not white space.
pub open spec fn word_len(s: Seq<char>) -> int
    decreases s.len(),
{
    if s.len() == 0 || is_whitespace(s[0]) {
        0
    } else {
        1 + word_len(s.skip(1))
    }
}

pub proof fn lemma_word_len(s: Seq<char>)
    ensures
        0 <= word_len(s) <= s.len(),
        s.len() > 0 && !is_whitespace(s[0]) ==> word_len(s) > 0,
    decreases s.len(),
{
    if s.len() > 0 && !is_whitespace(s[0]) {
        lemma_word_len(s.skip(1));
    }
}

pub proof fn lemma_trim_start_len(s: Seq<char>)
    ensures
        trim_start(s).len() <= s.len(),
        trim_start(s).len() > 0 ==> !is_whitespace(trim_start(s)[0]),
    decreases s.len(),
{
    if s.len() > 0 && is_whitespace(s[0]) {
        lemma_trim_start_len(s.skip(1));
    }
}

/// The words of `s`: the longest pieces without white space.
pub open spec fn words_of(s: Seq<char>) -> Seq<Seq<char>>
    decreases s.len(),
{
    proof {
        lemma_trim_start_len(s);
        lemma_word_len(trim_start(s));
    }
    let t = trim_start(s);
    if t.len() == 0 {
        seq![]
    } else {
        seq![t.take(word_len(t))] + words_of(t.skip(word_len(t)))
    }
}

/// The words of `s`: the longest pieces without white space.
pub fn words(s: &str) -> (r: Vec<String>)
    ensures
        views(r@) == words_of(s@),
{
    let cs = to_chars(s);
    let n: usize = cs.len();
    let mut out: Vec<String> = Vec::new();
    let mut at: usize = 0;
    assert(cs@.skip(0) =~= cs@);
    assert(views(out@) + words_of(cs@.skip(0)) =~= words_of(cs@));
    while at < n
        invariant
            at <= n == cs@.len(),
            views(out@) + words_of(cs@.skip(at as int)) == words_of(cs@),
        decreases n - at,
    {
        let ghost t = trim_start(cs@.skip(at as int));
        let mut lo: usize = at;
        while lo < n && whitespace(cs[lo])
            invariant
                at <= lo <= n == cs@.len(),
                t == trim_start(cs@.skip(lo as int)),
            decreases n - lo,
        {
            assert(cs@.skip(lo as int).skip(1) =~= cs@.skip(lo + 1));
            lo = lo + 1;
        }
        assert(t == cs@.skip(lo as int));
        let mut hi: usize = lo;
        assert(cs@.skip(hi as int).len() == n - hi);
        while hi < n && !whitespace(cs[hi])
            invariant
                lo <= hi <= n == cs@.len(),
                t == cs@.skip(lo as int),
                word_len(t) == hi - lo + word_len(cs@.skip(hi as int)),
            decreases n - hi,
        {
            assert(cs@.skip(hi as int).skip(1) =~= cs@.skip(hi + 1));
            hi = hi + 1;
        }
        assert(word_len(cs@.skip(hi as int)) == 0);
        let ghost old_out = out@;
        if hi > lo {
            let w = from_chars(&cs, lo, hi);
            assert(w@ =~= t.take(word_len(t)));
            out.push(w);
            assert(views(out@) =~= views(old_out).push(w@));
            assert(cs@.skip(hi as int) =~= t.skip(word_len(t)));
            assert(views(old_out) + (seq![w@] + words_of(cs@.skip(hi as int))) =~= views(out@)
                + words_of(cs@.skip(hi as int)));
        } else {
            proof {
                lemma_trim_start_len(cs@.skip(at as int));
                assert(lo == n);
            }
        }
        at = hi;
    }
    assert(cs@.skip(n as int) =~= Seq::<char>::empty());
    assert(words_of(cs@.skip(n as int)) =~= Seq::<Seq<char>>::empty());
    assert(views(out@) =~= words_of(s@));
    out
}

/// The texts of `parts` with `sep` between them.
pub open spec fn joined(parts: Seq<Seq<char>>, sep: Seq<char>) -> Seq<char>
    decreases parts.len(),
{
    if parts.len() == 0 {
        seq![]
    } else if parts.len() == 1 {
        parts[0]
    } else {
        joined(parts.drop_last(), sep) + sep + parts.last()
    }
}

/// The texts of `parts` from `from` on with `sep` between them.
pub fn join(parts: &Vec<String>, from: usize, sep: &str) -> (r: String)
    requires
        from <= parts@.len(),
    ensures
        r@ == joined(views(parts@).skip(from as int), sep@),
{
    let mut out: String = String::new();
    let mut i: usize = from;
    let ghost all = views(parts@);
    assert(all.subrange(from as int, from as int) =~= Seq::<Seq<char>>::empty());
    while i < parts.len()
        invariant
            from <= i <= parts@.len(),
            all == views(parts@),
            out@ == joined(all.subrange(from as int, i as int), sep@),
        decreases parts@.len() - i,
    {
        let ghost now = all.subrange(from as int, i + 1);
        assert(now.drop_last() =~= all.subrange(from as int, i as int));
        assert(now.last() == parts@[i as int]@);
        if i > from {
            out.append(sep);
            out.append(parts[i].as_str());
        } else {
            out = parts[i].clone();
        }
        i = i + 1;
    }
    assert(all.subrange(from as int, i as int) =~= all.skip(from as int));
    out
}

/// `s` with every `from`, taken from the left, replaced by `to`.
pub open spec fn replaced(s: Seq<char>, from: Seq<char>, to: Seq<char>) -> Seq<char>
    decreases s.len(),
{
    match find(s, from) {
        Some(i) => if 0 <= i && i + from.len() <= s.len() && from.len() > 0 {
            s.take(i) + to + replaced(s.skip(i + from.len()), from, to)
        } else {
            s
        },
        None => s,
    }
}

/// `s` with every `from`, taken from the left, replaced by `to`.
pub fn replace(s: &str, from: &str, to: &str) -> (r: String)
    requires
        from@.len() > 0,
    ensures
        r@ == replaced(s@, from@, to@),
{
    let mut out: String = String::new();
    let mut rest: String = s.to_owned();
    assert(out@ + replaced(rest@, from@, to@) =~= replaced(s@, from@, to@));
    loop
        invariant_except_break
            from@.len() > 0,
            out@ + replaced(rest@, from@, to@) == replaced(s@, from@, to@),
        ensures
            out@ == replaced(s@, from@, to@),
        decreases rest@.len(),
    {
        proof {
            lemma_find_from(rest@, from@, 0);
        }
        let ghost before = out@;
        match split_once(rest.as_str(), from) {
            Some((a, b)) => {
                out.append(a.as_str());
                out.append(to);
                assert(before + (a@ + to@ + replaced(b@, from@, to@)) =~= out@ + replaced(
                    b@,
                    from@,
                    to@,
                ));
                rest = b;
            },
            None => {
                out.append(rest.as_str());
                break;
            },
        }
    }
    out
}

/// `s` without trailing occurrences of `c`.
pub open spec fn without_trailing(s: Seq<char>, c: char) -> Seq<char>
    decreases s.len(),
{
    if s.len() > 0 && s.last() == c {
        without_trailing(s.drop_last(), c)
    } else {
        s
    }
}

/// `s` without trailing occurrences of `c`.
pub fn trim_end_char(s: &str, c: char) -> (r: String)
    ensures
        r@ == without_trailing(s@, c),
{
    let cs = to_chars(s);
    let mut hi: usize = cs.len();
    assert(cs@.take(hi as int) =~= s@);
    while hi > 0 && cs[hi - 1] == c
        invariant
            hi <= cs@.len(),
            without_trailing(s@, c) == without_trailing(cs@.take(hi as int), c),
        decreases hi,
    {
        assert(cs@.take(hi as int).drop_last() =~= cs@.take(hi - 1));
        hi = hi - 1;
    }
    let r = from_chars(&cs, 0, hi);
    assert(r@ =~= cs@.take(hi as int));
    r
}

/// `n` spaces.
pub open spec fn spaces(n: int) -> Seq<char> {
    Seq::new(
        if n > 0 {
            n as nat
        } else {
            0
        },
        |i: int| ' ',
    )
}

/// `s` with spaces behind it up to `width` characters.
pub open spec fn padded(s: Seq<char>, width: int) -> Seq<char> {
    s + spaces(width - s.len())
}

/// `s` with spaces behind it up to `width` characters.
pub fn pad_right(s: &str, width: usize) -> (r: String)
    ensures
        r@ == padded(s@, width as int),
{
    let mut out: String = s.to_owned();
    let mut n: usize = count(s);
    let ghost start = n;
    assert(out@ =~= s@ + spaces(0));
    while n < width
        invariant
            start == s@.len(),
            start <= n,
            n <= width || n == start,
            out@ == s@ + spaces(n - start),
        decreases width - n,
    {
        out.push(' ');
        assert(out@ =~= s@ + spaces(n + 1 - start));
        n = n + 1;
    }
    assert(spaces(n - start) =~= spaces(width - s@.len()));
    out
}

// ---------------------------------------------------------------------------
// Facts about text that is put together

/// Whether `s` is a word: not empty and without white space.
pub open spec fn is_word(s: Seq<char>) -> bool {
    s.len() > 0 && forall|i: int| 0 <= i < s.len() ==> !is_whitespace(#[trigger] s[i])
}

proof fn lemma_word_len_of(w: Seq<char>, rest: Seq<char>)
    requires
        forall|i: int| 0 <= i < w.len() ==> !is_whitespace(#[trigger] w[i]),
        rest.len() == 0 || is_whitespace(rest[0]),
    ensures
        word_len(w + rest) == w.len(),
    decreases w.len(),
{
    if w.len() == 0 {
        assert(w + rest =~= rest);
    } else {
        let t = w.skip(1);
        assert forall|i: int| 0 <= i < t.len() implies !is_whitespace(#[trigger] t[i]) by {
            assert(t[i] == w[i + 1]);
        }
        lemma_word_len_of(t, rest);
        assert((w + rest).skip(1) =~= t + rest);
        assert((w + rest)[0] == w[0]);
    }
}

/// A word before white space, or at the end, is the first of the words.
pub proof fn lemma_first_word(w: Seq<char>, rest: Seq<char>)
    requires
        is_word(w),
        rest.len() == 0 || is_whitespace(rest[0]),
    ensures
        words_of(w + rest) == seq![w] + words_of(rest),
{
    let s = w + rest;
    assert(s[0] == w[0]);
    assert(trim_start(s) == s);
    lemma_word_len_of(w, rest);
    assert(s.take(w.len() as int) =~= w);
    assert(s.skip(w.len() as int) =~= rest);
}

/// White space before a text does not change its words.
pub proof fn lemma_words_after_space(c: char, rest: Seq<char>)
    requires
        is_whitespace(c),
    ensures
        words_of(seq![c] + rest) == words_of(rest),
{
    assert((seq![c] + rest).skip(1) =~= rest);
    assert(trim_start(seq![c] + rest) == trim_start(rest));
}

/// The words of `w`, a space and `rest`.
pub proof fn lemma_word_then(w: Seq<char>, rest: Seq<char>)
    requires
        is_word(w),
    ensures
        words_of(w + seq![' '] + rest) == seq![w] + words_of(rest),
{
    assert(w + seq![' '] + rest =~= w + (seq![' '] + rest));
    lemma_first_word(w, seq![' '] + rest);
    lemma_words_after_space(' ', rest);
}

/// Text that does not begin or end with white space is not changed by trimming.
pub proof fn lemma_trimmed_same(s: Seq<char>)
    requires
        s.len() > 0 ==> !is_whitespace(s[0]) && !is_whitespace(s.last()),
    ensures
        trimmed(s) == s,
{
}

/// A leading space goes away in trimming.
pub proof fn lemma_trimmed_after_space(s: Seq<char>)
    ensures
        trimmed(seq![' '] + s) == trimmed(s),
{
    assert((seq![' '] + s).skip(1) =~= s);
}

/// `find` of a separator that does not occur in what stands before it.
pub proof fn lemma_find_after(a: Seq<char>, sep: Seq<char>, rest: Seq<char>)
    requires
        sep.len() > 0,
        forall|j: int| 0 <= j < a.len() ==> !occurs_at(a + sep + rest, sep, j),
    ensures
        find(a + sep + rest, sep) == Some(a.len() as int),
        split_first(a + sep + rest, sep) == Some((a, rest)),
{
    let s = a + sep + rest;
    let n = a.len() as int;
    assert(s.subrange(n, n + sep.len()) =~= sep);
    lemma_find_is(s, sep, 0, n);
    assert(s.take(n) =~= a);
    assert(s.skip(n + sep.len()) =~= rest);
}

/// Splitting `a`, a separator and `rest` gives `a` and the pieces of `rest`.
pub proof fn lemma_split_after(a: Seq<char>, sep: Seq<char>, rest: Seq<char>)
    requires
        sep.len() > 0,
        forall|j: int| 0 <= j < a.len() ==> !occurs_at(a + sep + rest, sep, j),
    ensures
        split(a + sep + rest, sep) == seq![a] + split(rest, sep),
{
    lemma_find_after(a, sep, rest);
}

/// A one-character separator that is not in `a` does not occur in it.
pub proof fn lemma_no_char(a: Seq<char>, c: char, rest: Seq<char>)
    requires
        forall|i: int| 0 <= i < a.len() ==> #[trigger] a[i] != c,
    ensures
        forall|j: int| 0 <= j < a.len() ==> !occurs_at(a + seq![c] + rest, seq![c], j),
{
    let s = a + seq![c] + rest;
    assert forall|j: int| 0 <= j < a.len() implies !occurs_at(s, seq![c], j) by {
        if occurs_at(s, seq![c], j) {
            assert(s.subrange(j, j + 1)[0] == s[j]);
            assert(s[j] == a[j]);
        }
    }
}

/// Reading back the bytes of a text gives the text.
pub proof fn lemma_utf8_reads_back(s: Seq<char>)
    ensures
        utf8(bytes_of(s)) == Some(s),
{
    vstd::utf8::encode_utf8_valid_utf8(s);
    vstd::utf8::encode_utf8_decode_utf8(s);
}

/// What stands before a bracket behind which there is none other, and before the
/// last colon.
pub proof fn lemma_cut(a: Seq<char>, c: char, rest: Seq<char>)
    ensures
        (forall|i: int| 0 <= i < a.len() ==> #[trigger] a[i] != c) ==> split_first(
            a + seq![c] + rest,
            seq![c],
        ) == Some((a, rest)),
        (forall|i: int| 0 <= i < rest.len() ==> #[trigger] rest[i] != c) ==> split_last(
            a + seq![c] + rest,
            c,
        ) == Some((a, rest)),
        !a.contains(c) ==> split_last(a, c) is None,
{
    let s = a + seq![c] + rest;
    let n = a.len() as int;
    assert(s.take(n) =~= a);
    assert(s.skip(n + 1) =~= rest);
    if forall|i: int| 0 <= i < a.len() ==> #[trigger] a[i] != c {
        lemma_no_char(a, c, rest);
        lemma_find_after(a, seq![c], rest);
    }
    if forall|i: int| 0 <= i < rest.len() ==> #[trigger] rest[i] != c {
        lemma_rfind_char(s, c);
        assert(s[n] == c);
        assert forall|j: int| n < j < s.len() implies s[j] != c by {
            assert(s[j] == rest[j - n - 1]);
        }
        assert(rfind_char(s, c) == Some(n));
    }
    if !a.contains(c) {
        lemma_rfind_char(a, c);
        if let Some(i) = rfind_char(a, c) {
            assert(a.contains(a[i]));
        }
    }
}

/// Text starts with a character just where its first one is that.
pub proof fn lemma_starts(s: Seq<char>, c: char)
    ensures
        begins_with(s, seq![c]) <==> s.len() > 0 && s[0] == c,
        begins_with(s, seq![c]) ==> after_prefix(s, seq![c]) == Some(s.skip(1)),
        after_prefix(s, seq![c]) is Some <==> begins_with(s, seq![c]),
{
    if s.len() > 0 {
        assert(s.take(1)[0] == s[0]);
        if s[0] == c {
            assert(s.take(1) =~= seq![c]);
        }
    }
}

/// A line before a line feed is the first, and one without is the only one.
pub proof fn lemma_lines(a: Seq<char>, rest: Seq<char>)
    requires
        forall|i: int| 0 <= i < a.len() ==> #[trigger] a[i] != '\n',
    ensures
        a.len() == 0 || a.last() != '\r' ==> lines_of(a + seq!['\n'] + rest) == seq![a] + lines_of(
            rest,
        ),
        a.len() > 0 ==> lines_of(a) == seq![a],
{
    let nl = seq!['\n'];
    let s = a + nl + rest;
    lemma_no_char(a, '\n', rest);
    lemma_find_after(a, nl, rest);
    assert(s.take(a.len() as int) =~= a);
    assert(s.skip((a.len() + 1) as int) =~= rest);
    lemma_find_from(a, nl, 0);
    if let Some(i) = find(a, nl) {
        assert(a.subrange(i, i + 1)[0] == a[i]);
    }
}

// ---------------------------------------------------------------------------
// Laws

/// Only ASCII letters change their case, and nothing else of a text does.
pub proof fn only_letters_change_their_case(
    s: &str,
    low: String,
    up: String,
    i: int,
    other: &str,
    alike: bool,
)
    requires
        call_ensures(to_lower, (s,), low),
        call_ensures(to_upper, (s,), up),
        call_ensures(eq_ignore_case, (s, other), alike),
        0 <= i < s@.len(),
    ensures
        low@.len() == s@.len(),
        up@.len() == s@.len(),
        'A' <= s@[i] && s@[i] <= 'Z' ==> low@[i] as u32 == s@[i] as u32 + 32 && up@[i] == s@[i],
        'a' <= s@[i] && s@[i] <= 'z' ==> up@[i] as u32 == s@[i] as u32 - 32 && low@[i] == s@[i],
        !('A' <= s@[i] && s@[i] <= 'Z') && !('a' <= s@[i] && s@[i] <= 'z') ==> low@[i] == s@[i]
            && up@[i] == s@[i],
        other@ == s@ || other@ == low@ ==> alike,
        alike ==> other@.len() == s@.len(),
{
    assert(lower(s@)[i] == lower_char(s@[i]));
    assert(upper(s@)[i] == upper_char(s@[i]));
    assert(lower(other@).len() == other@.len());
    if other@ == low@ {
        assert forall|k: int| 0 <= k < s@.len() implies lower(low@)[k] == low@[k] by {
            assert(low@[k] == lower_char(s@[k]));
            assert(lower(low@)[k] == lower_char(low@[k]));
        }
        assert(lower(low@) =~= lower(s@));
    }
}

proof fn lemma_trim_start(s: Seq<char>)
    ensures
        trim_start(s).len() <= s.len(),
        s.skip(s.len() - trim_start(s).len()) == trim_start(s),
        forall|i: int| 0 <= i < s.len() - trim_start(s).len() ==> is_whitespace(#[trigger] s[i]),
        trim_start(s).len() > 0 ==> !is_whitespace(trim_start(s)[0]),
    decreases s.len(),
{
    if s.len() > 0 && is_whitespace(s[0]) {
        let t = s.skip(1);
        lemma_trim_start(t);
        let n = s.len() - trim_start(s).len();
        assert(t.skip(t.len() - trim_start(t).len()) =~= s.skip(n));
        assert forall|i: int| 0 <= i < n implies is_whitespace(#[trigger] s[i]) by {
            if i > 0 {
                assert(t[i - 1] == s[i]);
            }
        }
    } else {
        assert(s.skip(0) =~= s);
    }
}

proof fn lemma_trim_end(s: Seq<char>)
    ensures
        trim_end(s).len() <= s.len(),
        s.take(trim_end(s).len() as int) == trim_end(s),
        forall|i: int| trim_end(s).len() <= i < s.len() ==> is_whitespace(#[trigger] s[i]),
        trim_end(s).len() > 0 ==> !is_whitespace(trim_end(s).last()),
    decreases s.len(),
{
    if s.len() > 0 && is_whitespace(s.last()) {
        let t = s.drop_last();
        lemma_trim_end(t);
        assert(t.take(trim_end(t).len() as int) =~= s.take(trim_end(t).len() as int));
        assert forall|i: int| trim_end(s).len() <= i < s.len() implies is_whitespace(
            #[trigger] s[i],
        ) by {
            if i < t.len() {
                assert(t[i] == s[i]);
            }
        }
    } else {
        assert(s.take(s.len() as int) =~= s);
    }
}

/// Trimming takes away the white space at both ends, all of it and nothing else.
pub proof fn trimming_takes_white_space_away(s: &str, r: String)
    requires
        call_ensures(trim, (s,), r),
    ensures
        r@.len() > 0 ==> !is_whitespace(r@[0]) && !is_whitespace(r@.last()),
        exists|from: int, to: int|
            0 <= from <= to <= s@.len() && r@ == #[trigger] s@.subrange(from, to) && (forall|i: int|
                (0 <= i < from || to <= i < s@.len()) ==> is_whitespace(#[trigger] s@[i])),
{
    let t = trim_start(s@);
    lemma_trim_start(s@);
    lemma_trim_end(t);
    let from = s@.len() - t.len();
    let to = from + r@.len();
    assert(r@ =~= s@.subrange(from, to));
    assert forall|i: int| (0 <= i < from || to <= i < s@.len()) implies is_whitespace(
        #[trigger] s@[i],
    ) by {
        if i >= to {
            assert(t[i - from] == s@[i]);
        }
    }
    if r@.len() > 0 {
        assert(r@[0] == t[0]);
    }
}

proof fn lemma_joined_first(a: Seq<char>, rest: Seq<Seq<char>>, sep: Seq<char>)
    requires
        rest.len() > 0,
    ensures
        joined(seq![a] + rest, sep) == a + sep + joined(rest, sep),
    decreases rest.len(),
{
    let all = seq![a] + rest;
    if rest.len() == 1 {
        assert(all.drop_last() =~= seq![a]);
        assert(joined(all.drop_last(), sep) == a);
        assert(all.last() == rest[0]);
    } else {
        let less = rest.drop_last();
        lemma_joined_first(a, less, sep);
        assert(all.drop_last() =~= seq![a] + less);
        assert(all.last() == rest.last());
        assert(a + sep + joined(less, sep) + sep + rest.last() =~= a + sep + (joined(less, sep) + sep
            + rest.last()));
    }
}

proof fn lemma_split_joined(s: Seq<char>, sep: Seq<char>)
    requires
        sep.len() > 0,
    ensures
        joined(split(s, sep), sep) == s,
        split(s, sep).len() > 0,
        forall|k: int|
            0 <= k < split(s, sep).len() ==> !contains(#[trigger] split(s, sep)[k], sep),
    decreases s.len(),
{
    lemma_find_from(s, sep, 0);
    match find(s, sep) {
        Some(i) => {
            let a = s.take(i);
            let t = s.skip(i + sep.len());
            let rest = split(t, sep);
            lemma_split_joined(t, sep);
            lemma_joined_first(a, rest, sep);
            assert(s.subrange(i, i + sep.len()) == sep);
            assert(a + sep + t =~= s) by {
                assert forall|k: int| 0 <= k < s.len() implies (a + sep + t)[k] == s[k] by {
                    if i <= k < i + sep.len() {
                        assert(s.subrange(i, i + sep.len())[k - i] == s[k]);
                    }
                }
            }
            let all = split(s, sep);
            assert(all == seq![a] + rest);
            assert(!contains(a, sep)) by {
                if contains(a, sep) {
                    let j = choose|j: int| occurs_at(a, sep, j);
                    assert(s.subrange(j, j + sep.len()) =~= a.subrange(j, j + sep.len()));
                    assert(occurs_at(s, sep, j));
                }
            }
            assert forall|k: int| 0 <= k < all.len() implies !contains(#[trigger] all[k], sep) by {
                if k > 0 {
                    assert(all[k] == rest[k - 1]);
                }
            }
        },
        None => {
            let all = split(s, sep);
            assert(all =~= seq![s]);
            assert(!contains(s, sep)) by {
                if contains(s, sep) {
                    let j = choose|j: int| occurs_at(s, sep, j);
                    assert(0 <= j);
                }
            }
            assert forall|k: int| 0 <= k < all.len() implies !contains(#[trigger] all[k], sep) by {
                assert(all[k] == s);
            }
        },
    }
}

/// A text that was cut at a separator and joined with it again is the text, and the
/// separator is in none of the pieces.
pub proof fn pieces_make_the_text(s: &str, sep: &str, pieces: Vec<String>, r: String, k: int)
    requires
        sep@.len() > 0,
        call_ensures(split_on, (s, sep), pieces),
        call_ensures(join, (&pieces, 0, sep), r),
        0 <= k < pieces@.len(),
    ensures
        r@ == s@,
        !contains(pieces@[k]@, sep@),
{
    lemma_split_joined(s@, sep@);
    let all = views(pieces@);
    assert(all.skip(0) =~= all);
    assert(all[k] == pieces@[k]@);
    assert(!contains(split(s@, sep@)[k], sep@));
}

/// A text is cut at the first separator, or at the last of a character, and what it
/// is cut into makes the text; without one it is not cut.
pub proof fn texts_are_cut_once(
    s: &str,
    sep: &str,
    c: char,
    first: Option<(String, String)>,
    last: Option<(String, String)>,
    has_sep: bool,
)
    requires
        sep@.len() > 0,
        call_ensures(split_once, (s, sep), first),
        call_ensures(rsplit_once, (s, c), last),
        call_ensures(has, (s, sep), has_sep),
    ensures
        first is Some <==> has_sep,
        first matches Some((a, b)) ==> s@ == a@ + sep@ + b@ && !contains(a@, sep@),
        last is Some <==> s@.contains(c),
        last matches Some((a, b)) ==> s@ == a@ + seq![c] + b@ && !b@.contains(c),
{
    lemma_find_from(s@, sep@, 0);
    if has_sep {
        let j = choose|j: int| occurs_at(s@, sep@, j);
        assert(0 <= j);
    }
    if let Some((a, b)) = first {
        let i = find(s@, sep@)->0;
        let whole = a@ + sep@ + b@;
        assert(occurs_at(s@, sep@, i));
        assert(s@ =~= whole) by {
            assert forall|k: int| 0 <= k < s@.len() implies s@[k] == whole[k] by {
                if i <= k < i + sep@.len() {
                    assert(s@.subrange(i, i + sep@.len())[k - i] == s@[k]);
                }
            }
        }
        if contains(a@, sep@) {
            let j = choose|j: int| occurs_at(a@, sep@, j);
            assert(s@.subrange(j, j + sep@.len()) =~= a@.subrange(j, j + sep@.len()));
            assert(occurs_at(s@, sep@, j));
        }
    }
    lemma_rfind_char(s@, c);
    if let Some((a, b)) = last {
        let i = rfind_char(s@, c)->0;
        assert(s@[i] == c);
        assert(s@ =~= a@ + seq![c] + b@);
        if b@.contains(c) {
            let k = choose|k: int| 0 <= k < b@.len() && b@[k] == c;
            assert(s@[i + 1 + k] == c);
        }
    }
}

/// What follows the start of a text, or precedes its end, makes the text with it.
pub proof fn ends_are_taken_off(
    s: &str,
    pat: &str,
    starts: bool,
    ends: bool,
    after: Option<String>,
    before: Option<String>,
)
    requires
        call_ensures(starts_with, (s, pat), starts),
        call_ensures(ends_with, (s, pat), ends),
        call_ensures(strip_prefix, (s, pat), after),
        call_ensures(strip_suffix, (s, pat), before),
    ensures
        after is Some <==> starts,
        before is Some <==> ends,
        after matches Some(r) ==> s@ == pat@ + r@,
        before matches Some(r) ==> s@ == r@ + pat@,
{
    if let Some(r) = after {
        assert(s@ =~= s@.take(pat@.len() as int) + s@.skip(pat@.len() as int));
    }
    if let Some(r) = before {
        let n = s@.len() - pat@.len();
        assert(s@ =~= s@.take(n) + s@.skip(n));
    }
}

/// Each occurrence of a text is replaced, from the left; a text without one stays.
pub proof fn occurrences_are_replaced(
    a: Seq<char>,
    b: &str,
    s: &str,
    from: &str,
    to: &str,
    r: String,
    rest: String,
)
    requires
        from@.len() > 0,
        forall|j: int| 0 <= j < a.len() ==> !occurs_at(a + from@ + b@, from@, j),
        call_ensures(replace, (s, from, to), r),
        call_ensures(replace, (b, from, to), rest),
    ensures
        s@ == a + from@ + b@ ==> r@ == a + to@ + rest@,
        !contains(s@, from@) ==> r@ == s@,
{
    if s@ == a + from@ + b@ {
        lemma_find_after(a, from@, b@);
        assert(s@.take(a.len() as int) =~= a);
        assert(s@.skip((a.len() + from@.len()) as int) =~= b@);
    }
    if !contains(s@, from@) {
        lemma_find_from(s@, from@, 0);
    }
}

/// Words have no white space in them, and none is empty.
pub proof fn words_have_no_white_space(s: &str, r: Vec<String>, k: int)
    requires
        call_ensures(words, (s,), r),
        0 <= k < r@.len(),
    ensures
        r@[k]@.len() > 0,
        forall|i: int| 0 <= i < r@[k]@.len() ==> !is_whitespace(#[trigger] r@[k]@[i]),
{
    lemma_words(s@, k);
    assert(views(r@)[k] == r@[k]@);
    let w = words_of(s@)[k];
    assert(w == r@[k]@);
}

proof fn lemma_words(s: Seq<char>, k: int)
    requires
        0 <= k < words_of(s).len(),
    ensures
        words_of(s)[k].len() > 0,
        forall|i: int| 0 <= i < words_of(s)[k].len() ==> !is_whitespace(#[trigger] words_of(s)[k][i]),
    decreases s.len(),
{
    let t = trim_start(s);
    lemma_trim_start_len(s);
    lemma_trim_start(s);
    lemma_word_len(t);
    let n = word_len(t);
    if t.len() > 0 {
        let first = t.take(n);
        lemma_word_chars(t);
        assert(n > 0);
        if k > 0 {
            lemma_words(t.skip(n), k - 1);
            assert(words_of(s)[k] == words_of(t.skip(n))[k - 1]);
        } else {
            assert(words_of(s)[0] == first);
        }
    }
}

proof fn lemma_word_chars(t: Seq<char>)
    ensures
        0 <= word_len(t) <= t.len(),
        forall|i: int| 0 <= i < word_len(t) ==> !is_whitespace(#[trigger] t[i]),
    decreases t.len(),
{
    if t.len() > 0 && !is_whitespace(t[0]) {
        let u = t.skip(1);
        lemma_word_chars(u);
        assert forall|i: int| 0 <= i < word_len(t) implies !is_whitespace(#[trigger] t[i]) by {
            if i > 0 {
                assert(u[i - 1] == t[i]);
            }
        }
    }
}

} // verus!
