//! Names and addresses of hosts.
use crate::text::same_text;
use vstd::prelude::*;

verus! {

/// Whether a host is below another one.
pub open spec fn is_subdomain(host: Seq<char>, of: Seq<char>) -> bool {
    host.len() > of.len() && host.skip(host.len() - of.len() - 1) == seq!['.'] + of
}

/// Whether a text holds a character.
pub open spec fn has_char(text: Seq<char>, c: char) -> bool {
    exists|i: int| 0 <= i < text.len() && text[i] == c
}

/// Whether the text of a host is an address and not a name: its last part, behind the last dot,
/// is all digits, or there is a colon in it.
pub open spec fn is_address(host: Seq<char>) -> bool {
    has_char(host, ':') || (exists|i: int| #[trigger] numeric_tail(host, i))
}

/// Whether what starts at `i` is the last part of a host, and all digits.
pub open spec fn numeric_tail(host: Seq<char>, i: int) -> bool {
    &&& 0 <= i < host.len()
    &&& i == 0 || host[i - 1] == '.'
    &&& forall|j: int| i <= j < host.len() ==> '0' <= #[trigger] host[j] && host[j] <= '9'
}

/// Whether a host is below another one.
pub fn below(host: &str, of: &str) -> (r: bool)
    ensures
        r == is_subdomain(host@, of@),
{
    let n: usize = host.unicode_len();
    let m: usize = of.unicode_len();
    if n <= m {
        return false;
    }
    let tail = host.substring_char(n - m - 1, n);
    let mut wanted: String = ".".to_owned();
    wanted.append(of);
    proof {
        reveal_strlit(".");
        assert(wanted@ =~= seq!['.'] + of@);
        assert(tail@ =~= host@.skip(n - m - 1));
    }
    same_text(tail, wanted.as_str())
}

/// Whether the text of a host is an address and not a name.
pub fn address(host: &str) -> (r: bool)
    ensures
        r == is_address(host@),
{
    let n: usize = host.unicode_len();
    let mut i: usize = 0;
    while i < n
        invariant
            i <= n,
            n == host@.len(),
            forall|j: int| 0 <= j < i ==> host@[j] != ':',
        decreases n - i,
    {
        if host.get_char(i) == ':' {
            return true;
        }
        i += 1;
    }
    let mut start: usize = n;
    while start > 0
        invariant
            start <= n,
            n == host@.len(),
            forall|j: int| 0 <= j < n ==> host@[j] != ':',
            forall|j: int| start <= j < n ==> '0' <= host@[j] && host@[j] <= '9',
        decreases start,
    {
        let c = host.get_char(start - 1);
        if c == '.' {
            assert(start < n ==> numeric_tail(host@, start as int));
            assert forall|k: int| start == n implies !#[trigger] numeric_tail(host@, k) by {
                assert(host@[n - 1] == '.');
            }
            return start < n;
        }
        if c < '0' || c > '9' {
            assert forall|k: int| !#[trigger] numeric_tail(host@, k) by {
                if k > start - 1 && numeric_tail(host@, k) {
                    assert(host@[k - 1] == '.');
                }
            }
            return false;
        }
        start -= 1;
    }
    assert(n > 0 ==> numeric_tail(host@, 0));
    n > 0
}

/// The subdomains of a host are those whose text ends with a dot and the text of the host.
pub proof fn law_subdomains_end_with_the_host(head: Seq<char>, host: Seq<char>, of: Seq<char>)
    ensures
        is_subdomain(head + seq!['.'] + of, of),
        is_subdomain(host, of) ==> host == host.take(host.len() - of.len() - 1) + seq!['.'] + of,
        !is_subdomain(host, host),
{
    let below = head + seq!['.'] + of;
    assert(below.skip(below.len() - of.len() - 1) =~= seq!['.'] + of);
    if is_subdomain(host, of) {
        let n = host.len() - of.len() - 1;
        assert(host =~= host.take(n) + host.skip(n));
        assert(host =~= host.take(n) + seq!['.'] + of);
    }
}

/// A text with a colon is an address, and so is one that ends with a part of digits only; a text
/// without a colon that does not end with a digit is a name.
pub proof fn law_names_and_addresses(text: Seq<char>, i: int)
    ensures
        0 <= i < text.len() && text[i] == ':' ==> is_address(text),
        0 <= i < text.len() && (i == 0 || text[i - 1] == '.') && (forall|j: int|
            i <= j < text.len() ==> '0' <= #[trigger] text[j] && text[j] <= '9') ==> is_address(
            text,
        ),
        text.len() > 0 && !has_char(text, ':') && !('0' <= text.last() && text.last() <= '9')
            ==> !is_address(text),
        text.len() == 0 ==> !is_address(text),
{
    if 0 <= i < text.len() && (i == 0 || text[i - 1] == '.') && (forall|j: int|
        i <= j < text.len() ==> '0' <= #[trigger] text[j] && text[j] <= '9') {
        assert(numeric_tail(text, i));
    }
    if text.len() > 0 && !('0' <= text.last() && text.last() <= '9') {
        assert forall|k: int| !#[trigger] numeric_tail(text, k) by {
            if numeric_tail(text, k) {
                assert('0' <= text[text.len() - 1] && text[text.len() - 1] <= '9');
            }
        }
    }
}

} // verus!
