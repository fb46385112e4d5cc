//! Choosing a readable device name from what the system reports.
use vstd::prelude::*;
use vstd::string::*;

verus! {

/// Unicode `White_Space`, as `char::is_whitespace` and `str::trim` use it.
pub open spec fn is_ws(c: char) -> bool {
    let u = c as u32;
    (0x9 <= u <= 0xd) || u == 0x20 || u == 0x85 || u == 0xa0 || u == 0x1680 || (0x2000 <= u
        <= 0x200a) || u == 0x2028 || u == 0x2029 || u == 0x202f || u == 0x205f || u == 0x3000
}

fn is_whitespace(c: char) -> (r: bool)
    ensures
        r == is_ws(c),
{
    let u = c as u32;
    (0x9 <= u && u <= 0xd) || u == 0x20 || u == 0x85 || u == 0xa0 || u == 0x1680 || (0x2000 <= u
        && u <= 0x200a) || u == 0x2028 || u == 0x2029 || u == 0x202f || u == 0x205f || u == 0x3000
}

/// Index of the first character of `s` that is not white space (or the length).
pub open spec fn trim_start_at(s: Seq<char>, i: int) -> bool {
    0 <= i <= s.len() && (forall|k: int| 0 <= k < i ==> is_ws(#[trigger] s[k])) && (i == s.len()
        || !is_ws(s[i]))
}

/// `t` is `s` without leading and trailing white space.
pub open spec fn is_trim_of(s: Seq<char>, t: Seq<char>) -> bool {
    exists|i: int, j: int|
        #![trigger s.subrange(i, j)]
        0 <= i <= j <= s.len() && t == s.subrange(i, j) && (forall|k: int|
            0 <= k < i ==> is_ws(#[trigger] s[k])) && (forall|k: int|
            j <= k < s.len() ==> is_ws(#[trigger] s[k])) && (i == j || (!is_ws(s[i]) && !is_ws(
            s[j - 1]))) && (i == j ==> j == s.len())
}

/// `s` without leading and trailing white space.
pub fn trim_whitespace(s: &str) -> (r: &str)
    ensures
        is_trim_of(s@, r@),
{
    let n: usize = s.unicode_len();
    let mut i: usize = 0;
    while i < n && is_whitespace(s.get_char(i))
        invariant
            i <= n,
            n == s@.len(),
            forall|k: int| 0 <= k < i ==> is_ws(#[trigger] s@[k]),
        decreases n - i,
    {
        i = i + 1;
    }
    let mut j: usize = n;
    while j > i && is_whitespace(s.get_char(j - 1))
        invariant
            i <= j <= n,
            n == s@.len(),
            forall|k: int| j <= k < n ==> is_ws(#[trigger] s@[k]),
        decreases j,
    {
        j = j - 1;
    }
    let r = s.substring_char(i, j);
    assert(r@ == s@.subrange(i as int, j as int));
    r
}

/// Every character is an ASCII digit or a dot (so the empty string is one).
pub open spec fn is_ip_spec(s: Seq<char>) -> bool {
    forall|k: int| 0 <= k < s.len() ==> ('0' <= #[trigger] s[k] <= '9' || s[k] == '.')
}

/// Whether `s` looks like an IPv4 address: only ASCII digits and dots.
pub fn is_ip_address(s: &str) -> (r: bool)
    ensures
        r == is_ip_spec(s@),
{
    let n: usize = s.unicode_len();
    let mut i: usize = 0;
    while i < n
        invariant
            i <= n,
            n == s@.len(),
            forall|k: int| 0 <= k < i ==> ('0' <= #[trigger] s@[k] <= '9' || s@[k] == '.'),
        decreases n - i,
    {
        let c = s.get_char(i);
        if !(('0' <= c && c <= '9') || c == '.') {
            return false;
        }
        i = i + 1;
    }
    true
}

/// The text of `s` before its first dot (all of it when there is none).
pub open spec fn first_label_spec(s: Seq<char>, r: Seq<char>) -> bool {
    exists|j: int|
        #![trigger s.subrange(0, j)]
        0 <= j <= s.len() && r == s.subrange(0, j) && (forall|k: int|
            0 <= k < j ==> #[trigger] s[k] != '.') && (j == s.len() || s[j] == '.')
}

/// `s` up to its first dot: the host name without its domain.
pub fn first_label(s: &str) -> (r: &str)
    ensures
        first_label_spec(s@, r@),
{
    let n: usize = s.unicode_len();
    let mut j: usize = 0;
    while j < n && s.get_char(j) != '.'
        invariant
            j <= n,
            n == s@.len(),
            forall|k: int| 0 <= k < j ==> #[trigger] s@[k] != '.',
        decreases n - j,
    {
        j = j + 1;
    }
    let r = s.substring_char(0, j);
    assert(r@ == s@.subrange(0, j as int));
    r
}

/// A computer name as the system settings report it, accepted only when,
/// once trimmed, it is non-empty, has no dot and is no address.
pub fn computer_name_candidate(raw: &str) -> (r: Option<String>)
    ensures
        match r {
            Some(name) => exists|t: Seq<char>|
                is_trim_of(raw@, t) && t.len() > 0 && !t.contains('.') && !is_ip_spec(t) && name@
                    == t,
            None => forall|t: Seq<char>|
                is_trim_of(raw@, t) ==> (t.len() == 0 || t.contains('.') || is_ip_spec(t)),
        },
{
    let t = trim_whitespace(raw);
    proof { lemma_trim_unique(raw@, t@); }
    let n: usize = t.unicode_len();
    if n == 0 {
        return None;
    }
    let mut k: usize = 0;
    while k < n
        invariant
            k <= n,
            n == t@.len(),
            forall|m: int| 0 <= m < k ==> t@[m] != '.',
            is_trim_of(raw@, t@),
            forall|u: Seq<char>| is_trim_of(raw@, u) ==> u == t@,
        decreases n - k,
    {
        if t.get_char(k) == '.' {
            assert(t@[k as int] == '.');
            assert(t@.contains('.'));
            return None;
        }
        k = k + 1;
    }
    if is_ip_address(t) {
        return None;
    }
    Some(String::from_str(t))
}

/// A host name reported by a command, accepted when, once trimmed, it is
/// non-empty and no address; the domain part is dropped.
pub fn hostname_candidate(raw: &str) -> (r: Option<String>)
    ensures
        match r {
            Some(name) => exists|t: Seq<char>|
                is_trim_of(raw@, t) && t.len() > 0 && !is_ip_spec(t) && first_label_spec(t, name@),
            None => forall|t: Seq<char>| is_trim_of(raw@, t) ==> (t.len() == 0 || is_ip_spec(t)),
        },
{
    let t = trim_whitespace(raw);
    proof { lemma_trim_unique(raw@, t@); }
    if t.unicode_len() == 0 || is_ip_address(t) {
        return None;
    }
    Some(String::from_str(first_label(t)))
}

/// A computer name taken from the environment, accepted as it is when it
/// is non-empty and no address.
pub fn environment_name_candidate(name: &str) -> (r: Option<String>)
    ensures
        r matches Some(n) ==> n@ == name@,
        r is Some <==> (name@.len() > 0 && !is_ip_spec(name@)),
{
    if name.unicode_len() == 0 || is_ip_address(name) {
        None
    } else {
        Some(String::from_str(name))
    }
}

/// The name used when no other source gave one.
pub fn unknown_device() -> (r: String)
    ensures
        r@ == "unknown-device"@,
{
    String::from_str("unknown-device")
}

/// The last resort: the host name as the system reports it (`None` when it
/// could not be read), trimmed and without its domain; `unknown-device`
/// when it is missing or looks like an address.
pub fn fallback_hostname(raw: Option<&str>) -> (r: String)
    ensures
        match raw {
            None => r@ == "unknown-device"@,
            Some(h) => forall|t: Seq<char>|
                is_trim_of(h@, t) ==> if is_ip_spec(t) {
                    r@ == "unknown-device"@
                } else {
                    first_label_spec(t, r@)
                },
        },
        raw matches Some(h) ==> exists|t: Seq<char>|
            is_trim_of(h@, t) && if is_ip_spec(t) {
                r@ == "unknown-device"@
            } else {
                first_label_spec(t, r@)
            },
{
    match raw {
        None => unknown_device(),
        Some(h) => {
            let t = trim_whitespace(h);
            proof { lemma_trim_unique(h@, t@); }
            if is_ip_address(t) {
                unknown_device()
            } else {
                String::from_str(first_label(t))
            }
        },
    }
}

/// A string has exactly one trimmed form.
pub proof fn lemma_trim_unique(s: Seq<char>, t: Seq<char>)
    requires
        is_trim_of(s, t),
    ensures
        forall|u: Seq<char>| is_trim_of(s, u) ==> u == t,
{
    assert forall|u: Seq<char>| is_trim_of(s, u) implies u == t by {
        let (i1, j1) = choose|i: int, j: int|
            #![trigger s.subrange(i, j)]
            0 <= i <= j <= s.len() && t == s.subrange(i, j) && (forall|k: int|
                0 <= k < i ==> is_ws(#[trigger] s[k])) && (forall|k: int|
                j <= k < s.len() ==> is_ws(#[trigger] s[k])) && (i == j || (!is_ws(s[i])
                && !is_ws(s[j - 1]))) && (i == j ==> j == s.len());
        let (i2, j2) = choose|i: int, j: int|
            #![trigger s.subrange(i, j)]
            0 <= i <= j <= s.len() && u == s.subrange(i, j) && (forall|k: int|
                0 <= k < i ==> is_ws(#[trigger] s[k])) && (forall|k: int|
                j <= k < s.len() ==> is_ws(#[trigger] s[k])) && (i == j || (!is_ws(s[i])
                && !is_ws(s[j - 1]))) && (i == j ==> j == s.len());
        if i1 == j1 {
            if i2 != j2 {
                assert(is_ws(s[i2]));
            }
        } else if i2 == j2 {
            assert(is_ws(s[i1]));
        } else {
            if i1 < i2 { assert(is_ws(s[i1])); }
            if i2 < i1 { assert(is_ws(s[i2])); }
            if j1 < j2 { assert(is_ws(s[j2 - 1])); }
            if j2 < j1 { assert(is_ws(s[j1 - 1])); }
        }
    }
}

} // verus!
