//! Byte-string constants of the wire protocol and small helpers on byte
//! vectors. Every constant exists twice: a `spec` sequence that contracts
//! speak of, and an executable constructor proved to build exactly it.

use vstd::prelude::*;

verus! {

/// The bytes of `"\r\n"`, the line terminator of the wire format.
pub open spec fn spec_crlf() -> Seq<u8> {
    seq![13u8, 10u8]
}

pub fn crlf() -> (r: Vec<u8>)
    ensures
        r@ == spec_crlf(),
{
    let v: Vec<u8> = vec![13u8, 10u8];
    proof {
        assert(v@ =~= spec_crlf());
    }
    v
}

/// The bytes of `": "`, the separator between a header name and its value.
pub open spec fn spec_header_sep() -> Seq<u8> {
    seq![58u8, 32u8]
}

pub fn header_sep() -> (r: Vec<u8>)
    ensures
        r@ == spec_header_sep(),
{
    let v: Vec<u8> = vec![58u8, 32u8];
    proof {
        assert(v@ =~= spec_header_sep());
    }
    v
}

/// The bytes of `"Content-Type"`.
pub open spec fn spec_content_type_key() -> Seq<u8> {
    seq![67u8, 111u8, 110u8, 116u8, 101u8, 110u8, 116u8, 45u8, 84u8, 121u8, 112u8, 101u8]
}

pub fn content_type_key() -> (r: Vec<u8>)
    ensures
        r@ == spec_content_type_key(),
{
    let v: Vec<u8> = vec![67u8, 111u8, 110u8, 116u8, 101u8, 110u8, 116u8, 45u8, 84u8, 121u8, 112u8, 101u8];
    proof {
        assert(v@ =~= spec_content_type_key());
    }
    v
}

/// The bytes of `"Content-Length"`.
pub open spec fn spec_content_length_key() -> Seq<u8> {
    seq![67u8, 111u8, 110u8, 116u8, 101u8, 110u8, 116u8, 45u8, 76u8, 101u8, 110u8, 103u8, 116u8, 104u8]
}

pub fn content_length_key() -> (r: Vec<u8>)
    ensures
        r@ == spec_content_length_key(),
{
    let v: Vec<u8> = vec![67u8, 111u8, 110u8, 116u8, 101u8, 110u8, 116u8, 45u8, 76u8, 101u8, 110u8, 103u8, 116u8, 104u8];
    proof {
        assert(v@ =~= spec_content_length_key());
    }
    v
}

/// The bytes of `"text/plain"`.
pub open spec fn spec_text_plain() -> Seq<u8> {
    seq![116u8, 101u8, 120u8, 116u8, 47u8, 112u8, 108u8, 97u8, 105u8, 110u8]
}

pub fn text_plain() -> (r: Vec<u8>)
    ensures
        r@ == spec_text_plain(),
{
    let v: Vec<u8> = vec![116u8, 101u8, 120u8, 116u8, 47u8, 112u8, 108u8, 97u8, 105u8, 110u8];
    proof {
        assert(v@ =~= spec_text_plain());
    }
    v
}

/// The bytes of `"application/octet-stream"`.
pub open spec fn spec_octet_stream() -> Seq<u8> {
    seq![97u8, 112u8, 112u8, 108u8, 105u8, 99u8, 97u8, 116u8, 105u8, 111u8, 110u8, 47u8, 111u8, 99u8, 116u8, 101u8, 116u8, 45u8, 115u8, 116u8, 114u8, 101u8, 97u8, 109u8]
}

pub fn octet_stream() -> (r: Vec<u8>)
    ensures
        r@ == spec_octet_stream(),
{
    let v: Vec<u8> = vec![97u8, 112u8, 112u8, 108u8, 105u8, 99u8, 97u8, 116u8, 105u8, 111u8, 110u8, 47u8, 111u8, 99u8, 116u8, 101u8, 116u8, 45u8, 115u8, 116u8, 114u8, 101u8, 97u8, 109u8];
    proof {
        assert(v@ =~= spec_octet_stream());
    }
    v
}

/// The bytes of `"User-Agent"`.
pub open spec fn spec_user_agent_key() -> Seq<u8> {
    seq![85u8, 115u8, 101u8, 114u8, 45u8, 65u8, 103u8, 101u8, 110u8, 116u8]
}

pub fn user_agent_key() -> (r: Vec<u8>)
    ensures
        r@ == spec_user_agent_key(),
{
    let v: Vec<u8> = vec![85u8, 115u8, 101u8, 114u8, 45u8, 65u8, 103u8, 101u8, 110u8, 116u8];
    proof {
        assert(v@ =~= spec_user_agent_key());
    }
    v
}

/// The bytes of `"GET"`.
pub open spec fn spec_method_get() -> Seq<u8> {
    seq![71u8, 69u8, 84u8]
}

pub fn method_get() -> (r: Vec<u8>)
    ensures
        r@ == spec_method_get(),
{
    let v: Vec<u8> = vec![71u8, 69u8, 84u8];
    proof {
        assert(v@ =~= spec_method_get());
    }
    v
}

/// The bytes of `"POST"`.
pub open spec fn spec_method_post() -> Seq<u8> {
    seq![80u8, 79u8, 83u8, 84u8]
}

pub fn method_post() -> (r: Vec<u8>)
    ensures
        r@ == spec_method_post(),
{
    let v: Vec<u8> = vec![80u8, 79u8, 83u8, 84u8];
    proof {
        assert(v@ =~= spec_method_post());
    }
    v
}

/// The bytes of `"/"`.
pub open spec fn spec_root_path() -> Seq<u8> {
    seq![47u8]
}

pub fn root_path() -> (r: Vec<u8>)
    ensures
        r@ == spec_root_path(),
{
    let v: Vec<u8> = vec![47u8];
    proof {
        assert(v@ =~= spec_root_path());
    }
    v
}

/// The bytes of `"/echo/"`.
pub open spec fn spec_echo_prefix() -> Seq<u8> {
    seq![47u8, 101u8, 99u8, 104u8, 111u8, 47u8]
}

pub fn echo_prefix() -> (r: Vec<u8>)
    ensures
        r@ == spec_echo_prefix(),
{
    let v: Vec<u8> = vec![47u8, 101u8, 99u8, 104u8, 111u8, 47u8];
    proof {
        assert(v@ =~= spec_echo_prefix());
    }
    v
}

/// The bytes of `"/files/"`.
pub open spec fn spec_files_prefix() -> Seq<u8> {
    seq![47u8, 102u8, 105u8, 108u8, 101u8, 115u8, 47u8]
}

pub fn files_prefix() -> (r: Vec<u8>)
    ensures
        r@ == spec_files_prefix(),
{
    let v: Vec<u8> = vec![47u8, 102u8, 105u8, 108u8, 101u8, 115u8, 47u8];
    proof {
        assert(v@ =~= spec_files_prefix());
    }
    v
}

/// The bytes of `"/user-agent"`.
pub open spec fn spec_user_agent_path() -> Seq<u8> {
    seq![47u8, 117u8, 115u8, 101u8, 114u8, 45u8, 97u8, 103u8, 101u8, 110u8, 116u8]
}

pub fn user_agent_path() -> (r: Vec<u8>)
    ensures
        r@ == spec_user_agent_path(),
{
    let v: Vec<u8> = vec![47u8, 117u8, 115u8, 101u8, 114u8, 45u8, 97u8, 103u8, 101u8, 110u8, 116u8];
    proof {
        assert(v@ =~= spec_user_agent_path());
    }
    v
}

/// The bytes of `"--directory"`, the command-line flag that names the base
/// directory of the static-file route.
pub open spec fn spec_directory_flag() -> Seq<u8> {
    seq![45u8, 45u8, 100u8, 105u8, 114u8, 101u8, 99u8, 116u8, 111u8, 114u8, 121u8]
}

pub fn directory_flag() -> (r: Vec<u8>)
    ensures
        r@ == spec_directory_flag(),
{
    let v: Vec<u8> = vec![45u8, 45u8, 100u8, 105u8, 114u8, 101u8, 99u8, 116u8, 111u8, 114u8, 121u8];
    proof {
        assert(v@ =~= spec_directory_flag());
    }
    v
}

/// True when `a` and `b` hold the same bytes.
pub fn bytes_eq(a: &Vec<u8>, b: &Vec<u8>) -> (r: bool)
    ensures
        r == (a@ == b@),
{
    if a.len() != b.len() {
        proof {
            assert(a@ != b@);
        }
        return false;
    }
    let n: usize = a.len();
    let mut i: usize = 0;
    while i < n
        invariant
            n == a@.len() && n == b@.len(),
            0 <= i <= n,
            forall|j: int| 0 <= j < i ==> a@[j] == b@[j],
        decreases n - i,
    {
        if a[i] != b[i] {
            proof {
                assert(a@[i as int] != b@[i as int]);
            }
            return false;
        }
        i += 1;
    }
    proof {
        assert(a@ =~= b@);
    }
    true
}

/// True when `p` is a prefix of `s`.
pub fn starts_with(s: &Vec<u8>, p: &Vec<u8>) -> (r: bool)
    ensures
        r == p@.is_prefix_of(s@),
{
    if p.len() > s.len() {
        proof {
            assert(!p@.is_prefix_of(s@));
        }
        return false;
    }
    let n: usize = p.len();
    let mut i: usize = 0;
    while i < n
        invariant
            n == p@.len(),
            n <= s@.len(),
            0 <= i <= n,
            forall|j: int| 0 <= j < i ==> s@[j] == p@[j],
        decreases n - i,
    {
        if s[i] != p[i] {
            proof {
                assert(!p@.is_prefix_of(s@));
            }
            return false;
        }
        i += 1;
    }
    proof {
        assert(p@ =~= s@.subrange(0, p@.len() as int));
    }
    true
}

/// The remainder of `s` after the prefix `p`, or `None` when `p` is not a
/// prefix of `s`.
pub fn strip_prefix(s: &Vec<u8>, p: &Vec<u8>) -> (r: Option<Vec<u8>>)
    ensures
        match r {
            Some(rest) => p@.is_prefix_of(s@) && rest@ == s@.skip(p@.len() as int),
            None => !p@.is_prefix_of(s@),
        },
{
    if !starts_with(s, p) {
        return None;
    }
    let mut rest: Vec<u8> = Vec::new();
    let mut i: usize = p.len();
    while i < s.len()
        invariant
            p@.len() <= i <= s@.len(),
            rest@ == s@.subrange(p@.len() as int, i as int),
        decreases s@.len() - i,
    {
        let b: u8 = s[i];
        rest.push(b);
        proof {
            assert(rest@ =~= s@.subrange(p@.len() as int, i + 1));
        }
        i += 1;
    }
    proof {
        assert(rest@ =~= s@.skip(p@.len() as int));
    }
    Some(rest)
}

/// Appends all bytes of `b` to `out`.
pub fn push_all(out: &mut Vec<u8>, b: &Vec<u8>)
    ensures
        final(out)@ == old(out)@ + b@,
{
    let mut i: usize = 0;
    while i < b.len()
        invariant
            0 <= i <= b@.len(),
            out@ == old(out)@ + b@.subrange(0, i as int),
        decreases b@.len() - i,
    {
        let x: u8 = b[i];
        out.push(x);
        proof {
            assert(out@ =~= old(out)@ + b@.subrange(0, i + 1));
        }
        i += 1;
    }
    proof {
        assert(out@ =~= old(out)@ + b@);
    }
}

} // verus!
