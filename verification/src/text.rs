use vstd::prelude::*;

verus! {

// ---------------------------------------------------------------------------
// Whitespace and trimming
// ---------------------------------------------------------------------------

/// The characters the parser treats as whitespace: the common ASCII
/// whitespace characters plus the ideographic space that appears in
/// CJK release titles.
pub open spec fn is_ws(c: char) -> bool {
    c == ' ' || c == '\t' || c == '\n' || c == '\r' || c == '\u{3000}'
}

pub fn char_is_ws(c: char) -> (r: bool)
    ensures
        r == is_ws(c),
{
    c == ' ' || c == '\t' || c == '\n' || c == '\r' || c == '\u{3000}'
}

/// A sequence with its leading whitespace removed.
pub open spec fn trim_front(s: Seq<char>) -> Seq<char>
    decreases s.len(),
{
    if s.len() > 0 && is_ws(s[0]) {
        trim_front(s.drop_first())
    } else {
        s
    }
}

/// A sequence with its trailing whitespace removed.
pub open spec fn trim_back(s: Seq<char>) -> Seq<char>
    decreases s.len(),
{
    if s.len() > 0 && is_ws(s.last()) {
        trim_back(s.drop_last())
    } else {
        s
    }
}

/// A sequence with leading and trailing whitespace removed.
pub open spec fn trim(s: Seq<char>) -> Seq<char> {
    trim_back(trim_front(s))
}

fn trim_front_idx(v: &Vec<char>, i: usize) -> (r: usize)
    requires
        i <= v.len(),
    ensures
        i <= r <= v.len(),
        trim_front(v@.skip(i as int)) == v@.skip(r as int),
    decreases v.len() - i,
{
    if i < v.len() && char_is_ws(v[i]) {
        proof {
            assert(v@.skip(i as int).drop_first() =~= v@.skip(i as int + 1));
        }
        trim_front_idx(v, i + 1)
    } else {
        proof {
            if i < v.len() {
                assert(v@.skip(i as int)[0] == v@[i as int]);
            }
        }
        i
    }
}

fn trim_back_idx(v: &Vec<char>, a: usize, j: usize) -> (r: usize)
    requires
        a <= j <= v.len(),
    ensures
        a <= r <= j,
        trim_back(v@.subrange(a as int, j as int)) == v@.subrange(a as int, r as int),
    decreases j,
{
    if j > a && char_is_ws(v[j - 1]) {
        proof {
            assert(v@.subrange(a as int, j as int).drop_last() =~= v@.subrange(
                a as int,
                j as int - 1,
            ));
            assert(v@.subrange(a as int, j as int).last() == v@[j as int - 1]);
        }
        trim_back_idx(v, a, j - 1)
    } else {
        proof {
            if j > a {
                assert(v@.subrange(a as int, j as int).last() == v@[j as int - 1]);
            }
        }
        j
    }
}

/// Copies `v[a..b]` into a fresh vector.
pub fn subrange_vec(v: &Vec<char>, a: usize, b: usize) -> (r: Vec<char>)
    requires
        a <= b <= v.len(),
    ensures
        r@ == v@.subrange(a as int, b as int),
{
    let mut r: Vec<char> = Vec::new();
    let mut i: usize = a;
    while i < b
        invariant
            a <= i <= b <= v.len(),
            r@ == v@.subrange(a as int, i as int),
        decreases b - i,
    {
        r.push(v[i]);
        proof {
            assert(v@.subrange(a as int, i as int).push(v@[i as int]) =~= v@.subrange(
                a as int,
                i as int + 1,
            ));
        }
        i = i + 1;
    }
    r
}

/// Copies a character vector.
pub fn copy_chars(v: &Vec<char>) -> (r: Vec<char>)
    ensures
        r@ == v@,
{
    let r = subrange_vec(v, 0, v.len());
    proof {
        assert(v@.subrange(0, v@.len() as int) =~= v@);
    }
    r
}

/// Character-for-character equality of two string slices.
pub fn str_eq(a: &str, b: &str) -> (r: bool)
    ensures
        r == (a@ == b@),
{
    let n = a.unicode_len();
    let m = b.unicode_len();
    if n != m {
        return false;
    }
    let mut i: usize = 0;
    while i < n
        invariant
            i <= n,
            n == a@.len(),
            n == b@.len(),
            forall|j: int| 0 <= j < i ==> a@[j] == b@[j],
        decreases n - i,
    {
        if a.get_char(i) != b.get_char(i) {
            return false;
        }
        i = i + 1;
    }
    proof {
        assert(a@ =~= b@);
    }
    true
}

/// Appends the characters of a string slice to a character vector.
pub fn push_str_chars(out: &mut Vec<char>, s: &str)
    ensures
        final(out)@ == old(out)@ + s@,
{
    let n = s.unicode_len();
    let mut i: usize = 0;
    while i < n
        invariant
            i <= n,
            n == s@.len(),
            out@ == old(out)@ + s@.take(i as int),
        decreases n - i,
    {
        out.push(s.get_char(i));
        proof {
            assert((old(out)@ + s@.take(i as int)).push(s@[i as int]) =~= old(out)@ + s@.take(
                i as int + 1,
            ));
        }
        i = i + 1;
    }
    proof {
        assert(s@.take(n as int) =~= s@);
    }
}

/// Concatenates two character vectors.
pub fn concat_chars(a: &Vec<char>, b: &Vec<char>) -> (r: Vec<char>)
    ensures
        r@ == a@ + b@,
{
    let mut r = copy_chars(a);
    let mut i: usize = 0;
    while i < b.len()
        invariant
            i <= b.len(),
            r@ == a@ + b@.take(i as int),
        decreases b.len() - i,
    {
        r.push(b[i]);
        proof {
            assert((a@ + b@.take(i as int)).push(b@[i as int]) =~= a@ + b@.take(i as int + 1));
        }
        i = i + 1;
    }
    proof {
        assert(b@.take(b@.len() as int) =~= b@);
    }
    r
}

/// Trims whitespace from both ends of a character vector.
pub fn trim_chars(v: &Vec<char>) -> (r: Vec<char>)
    ensures
        r@ == trim(v@),
{
    let a = trim_front_idx(v, 0);
    proof {
        assert(v@.skip(0) =~= v@);
        assert(v@.skip(a as int) =~= v@.subrange(a as int, v@.len() as int));
    }
    let b = trim_back_idx(v, a, v.len());
    subrange_vec(v, a, b)
}

// ---------------------------------------------------------------------------
// Substring matching
// ---------------------------------------------------------------------------

/// `pat` occurs in `s` starting at position `i`.
pub open spec fn matches_at(s: Seq<char>, i: int, pat: Seq<char>) -> bool {
    &&& 0 <= i
    &&& i + pat.len() <= s.len()
    &&& forall|k: int| 0 <= k < pat.len() ==> s[i + k] == pat[k]
}

/// `pat` occurs somewhere in `s`.
pub open spec fn has_sub(s: Seq<char>, pat: Seq<char>) -> bool {
    exists|i: int| matches_at(s, i, pat)
}

/// The character `c` occurs in `s`.
pub open spec fn has_char(s: Seq<char>, c: char) -> bool {
    exists|i: int| 0 <= i < s.len() && s[i] == c
}

/// Collects the characters of a string slice into a vector.
pub fn str_chars(s: &str) -> (r: Vec<char>)
    ensures
        r@ == s@,
{
    let n = s.unicode_len();
    let mut r: Vec<char> = Vec::new();
    let mut i: usize = 0;
    while i < n
        invariant
            i <= n,
            n == s@.len(),
            r@ == s@.take(i as int),
        decreases n - i,
    {
        r.push(s.get_char(i));
        proof {
            assert(s@.take(i as int).push(s@[i as int]) =~= s@.take(i as int + 1));
        }
        i = i + 1;
    }
    proof {
        assert(s@.take(n as int) =~= s@);
    }
    r
}

/// Does `pat` occur in `v` starting at position `i`?
pub fn matches_at_str(v: &Vec<char>, i: usize, pat: &str) -> (r: bool)
    ensures
        r == matches_at(v@, i as int, pat@),
{
    let m = pat.unicode_len();
    if i > v.len() || m > v.len() - i {
        return false;
    }
    let mut k: usize = 0;
    while k < m
        invariant
            0 <= k <= m,
            m == pat@.len(),
            i + m <= v.len(),
            forall|j: int| 0 <= j < k ==> v@[i + j] == pat@[j],
        decreases m - k,
    {
        if v[i + k] != pat.get_char(k) {
            return false;
        }
        k = k + 1;
    }
    true
}

/// Does `pat` occur anywhere in `v`?
pub fn contains_str(v: &Vec<char>, pat: &str) -> (r: bool)
    ensures
        r == has_sub(v@, pat@),
{
    let n = v.len();
    let mut i: usize = 0;
    while i < n
        invariant
            0 <= i <= n,
            n == v@.len(),
            forall|j: int| 0 <= j < i ==> !matches_at(v@, j, pat@),
        decreases n - i,
    {
        if matches_at_str(v, i, pat) {
            return true;
        }
        i = i + 1;
    }
    if matches_at_str(v, n, pat) {
        return true;
    }
    false
}

/// Does the character `c` occur in `v`?
pub fn contains_char(v: &Vec<char>, c: char) -> (r: bool)
    ensures
        r == has_char(v@, c),
{
    let n = v.len();
    let mut i: usize = 0;
    while i < n
        invariant
            0 <= i <= n,
            n == v@.len(),
            forall|j: int| 0 <= j < i ==> v@[j] != c,
        decreases n - i,
    {
        if v[i] == c {
            return true;
        }
        i = i + 1;
    }
    false
}

// ---------------------------------------------------------------------------
// Building strings
// ---------------------------------------------------------------------------

/// Relies on `String::push`: appends the given character to the end of
/// the string.
#[verifier::external_body]
pub fn push_char(s: &mut String, c: char)
    ensures
        final(s)@ == old(s)@.push(c),
{
    s.push(c);
}

/// Builds a `String` holding exactly the characters of `v`.
pub fn string_of(v: &Vec<char>) -> (r: String)
    ensures
        r@ == v@,
{
    let mut r = String::new();
    let mut i: usize = 0;
    while i < v.len()
        invariant
            i <= v.len(),
            r@ == v@.take(i as int),
        decreases v.len() - i,
    {
        push_char(&mut r, v[i]);
        proof {
            assert(v@.take(i as int).push(v@[i as int]) =~= v@.take(i as int + 1));
        }
        i = i + 1;
    }
    proof {
        assert(v@.take(v@.len() as int) =~= v@);
    }
    r
}


// ---------------------------------------------------------------------------
// ASCII case folding and byte views
// ---------------------------------------------------------------------------

/// ASCII lower case of one character.
pub open spec fn ascii_lower(c: char) -> char {
    if 65 <= c as u32 <= 90 {
        (((c as u32) + 32) as u8) as char
    } else {
        c
    }
}

/// ASCII lower case of a sequence.
pub open spec fn lower_seq(s: Seq<char>) -> Seq<char> {
    s.map_values(|c: char| ascii_lower(c))
}

/// The bytes of a sequence of ASCII characters.
pub open spec fn ascii_bytes(s: Seq<char>) -> Seq<u8> {
    s.map_values(|c: char| (c as u32) as u8)
}

/// Lower-cases the ASCII letters of a character vector.
pub fn lower_chars(v: &Vec<char>) -> (r: Vec<char>)
    ensures
        r@ == lower_seq(v@),
{
    let mut r: Vec<char> = Vec::new();
    let mut i: usize = 0;
    while i < v.len()
        invariant
            i <= v.len(),
            r@ == lower_seq(v@.take(i as int)),
        decreases v.len() - i,
    {
        let c = v[i];
        let u = c as u32;
        let lc: char = if 65 <= u && u <= 90 {
            ((u + 32) as u8) as char
        } else {
            c
        };
        r.push(lc);
        proof {
            assert(lower_seq(v@.take(i as int)).push(ascii_lower(v@[i as int])) =~= lower_seq(
                v@.take(i as int + 1),
            ));
        }
        i = i + 1;
    }
    proof {
        assert(v@.take(v@.len() as int) =~= v@);
    }
    r
}

/// Character-for-character equality of two character vectors.
pub fn chars_eq(a: &Vec<char>, b: &Vec<char>) -> (r: bool)
    ensures
        r == (a@ == b@),
{
    if a.len() != b.len() {
        return false;
    }
    let mut i: usize = 0;
    while i < a.len()
        invariant
            i <= a.len(),
            a.len() == b.len(),
            forall|j: int| 0 <= j < i ==> a@[j] == b@[j],
        decreases a.len() - i,
    {
        if a[i] != b[i] {
            return false;
        }
        i = i + 1;
    }
    proof {
        assert(a@ =~= b@);
    }
    true
}

// ---------------------------------------------------------------------------
// Removing every occurrence of a pattern
// ---------------------------------------------------------------------------

/// `s` with every occurrence of `pat` removed, scanning left to right
/// from `i`; an empty pattern removes nothing.
pub open spec fn remove_sub_from(s: Seq<char>, pat: Seq<char>, i: int) -> Seq<char>
    decreases s.len() - i,
{
    if i < 0 || i >= s.len() {
        seq![]
    } else if pat.len() >= 1 && matches_at(s, i, pat) {
        remove_sub_from(s, pat, i + pat.len())
    } else {
        seq![s[i]] + remove_sub_from(s, pat, i + 1)
    }
}

fn matches_at_vec(v: &Vec<char>, i: usize, pat: &Vec<char>) -> (r: bool)
    ensures
        r == matches_at(v@, i as int, pat@),
{
    let m = pat.len();
    if i > v.len() || m > v.len() - i {
        return false;
    }
    let mut k: usize = 0;
    while k < m
        invariant
            0 <= k <= m,
            m == pat@.len(),
            i + m <= v.len(),
            forall|j: int| 0 <= j < k ==> v@[i + j] == pat@[j],
        decreases m - k,
    {
        if v[i + k] != pat[k] {
            return false;
        }
        k = k + 1;
    }
    true
}

/// Removes every occurrence of `pat` from `v[i..]`.
pub fn remove_sub_x(v: &Vec<char>, pat: &Vec<char>, i: usize) -> (r: Vec<char>)
    requires
        i <= v.len(),
    ensures
        r@ == remove_sub_from(v@, pat@, i as int),
    decreases v.len() - i,
{
    if i >= v.len() {
        let r: Vec<char> = Vec::new();
        return r;
    }
    if pat.len() >= 1 && matches_at_vec(v, i, pat) {
        remove_sub_x(v, pat, i + pat.len())
    } else {
        let c = v[i];
        let mut rest = remove_sub_x(v, pat, i + 1);
        let ghost rv = rest@;
        rest.insert(0, c);
        proof {
            assert(rest@ =~= seq![c] + rv);
        }
        rest
    }
}

} // verus!
