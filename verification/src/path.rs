//! Paths in a request: UTF-8 text that a NUL byte or the end of the packet ends.

use vstd::prelude::*;
use vstd::slice::slice_subrange;
use vstd::string::*;
use vstd::utf8::*;

verus! {

/// How many bytes come before the first NUL byte, or before the end.
pub open spec fn nul_end(s: Seq<u8>) -> nat
    decreases s.len(),
{
    if s.len() == 0 || s[0] == 0 {
        0
    } else {
        1 + nul_end(s.drop_first())
    }
}

/// The path at the start of `s`. Bytes that are no valid UTF-8 give the empty path.
pub open spec fn path_at_start(s: Seq<u8>) -> Seq<char> {
    let text = s.take(nul_end(s) as int);
    if valid_utf8(text) {
        decode_utf8(text)
    } else {
        Seq::empty()
    }
}

/// The path that starts at byte `at` of `s`.
pub open spec fn path_at(s: Seq<u8>, at: int) -> Seq<char> {
    path_at_start(s.skip(at))
}

/// Where the second path of a rename request starts: behind the first path and
/// its NUL byte, at the next multiple of eight.
pub open spec fn second_path_offset(s: Seq<u8>) -> nat {
    (encode_utf8(path_at_start(s)).len() + 8) / 8 * 8
}

/// The error type of `str::from_utf8`, carried through unopened.
#[verifier::external_type_specification]
#[verifier::external_body]
pub struct ExUtf8Error(core::str::Utf8Error);

/// `core::str::from_utf8` succeeds exactly on valid UTF-8, and then gives the text
/// that the bytes encode.
pub assume_specification[ core::str::from_utf8 ](v: &[u8]) -> (r: Result<
    &str,
    core::str::Utf8Error,
>)
    ensures
        match r {
            Ok(text) => valid_utf8(v@) && text@ == decode_utf8(v@),
            Err(_) => !valid_utf8(v@),
        },
;

/// `nul_end` is the one position that has no NUL byte before it, and stands at a
/// NUL byte or at the end.
pub proof fn lemma_nul_end(s: Seq<u8>, n: int)
    requires
        0 <= n <= s.len(),
        forall|i: int| 0 <= i < n ==> s[i] != 0,
        n == s.len() || s[n] == 0,
    ensures
        nul_end(s) == n,
    decreases s.len(),
{
    if n > 0 {
        assert forall|i: int| 0 <= i < n - 1 implies s.drop_first()[i] != 0 by {
            assert(s.drop_first()[i] == s[i + 1]);
        }
        lemma_nul_end(s.drop_first(), n - 1);
    }
}

/// The text at the start of `utf8_src`: up to the first NUL byte, or all of it
/// where there is none. Text that is no valid UTF-8 gives the empty string.
pub fn str_from_u8_nul_utf8(utf8_src: &[u8]) -> (r: &str)
    ensures
        r@ == path_at_start(utf8_src@),
{
    let mut end: usize = 0;
    while end < utf8_src.len() && utf8_src[end] != 0
        invariant
            end <= utf8_src@.len(),
            forall|i: int| 0 <= i < end ==> utf8_src@[i] != 0,
        decreases utf8_src@.len() - end,
    {
        end += 1;
    }
    proof {
        lemma_nul_end(utf8_src@, end as int);
        reveal_strlit("");
    }
    let text = slice_subrange(utf8_src, 0, end);
    assert(text@ == utf8_src@.take(end as int));
    match core::str::from_utf8(text) {
        Ok(path) => path,
        Err(_) => "",
    }
}

/// The path that starts at byte `at` of `data`.
pub fn read_path(data: &[u8], at: usize) -> (r: String)
    requires
        at <= data@.len(),
    ensures
        r@ == path_at(data@, at as int),
{
    let rest = slice_subrange(data, at, data.len());
    assert(rest@ =~= data@.skip(at as int));
    str_from_u8_nul_utf8(rest).to_owned()
}

/// Where the second path of a rename request starts, if that is inside `data`.
pub fn find_second_path(data: &[u8]) -> (r: Option<usize>)
    ensures
        match r {
            Some(at) => at == second_path_offset(data@) && at <= data@.len(),
            None => second_path_offset(data@) > data@.len(),
        },
{
    let size: usize = data.len();
    let len: usize = str_from_u8_nul_utf8(data).len();
    proof {
        lemma_path_fits(data@);
        assert(usize::MAX == 0xffff_ffff || usize::MAX == 0xffff_ffff_ffff_ffff);
    }
    if len > usize::MAX - 8 {
        return None;
    }
    let end: usize = len + 1 + 0x7;
    let offset: usize = end & !0x7usize;
    assert(offset == end / 8 * 8) by (bit_vector)
        requires
            offset == end & !0x7usize,
    ;
    if offset <= size {
        Some(offset)
    } else {
        None
    }
}

/// A path takes no more bytes than it was read from.
proof fn lemma_path_fits(s: Seq<u8>)
    ensures
        encode_utf8(path_at_start(s)).len() <= s.len(),
{
    let text = s.take(nul_end(s) as int);
    lemma_no_nul_before_the_end(s);
    if valid_utf8(text) {
        decode_utf8_encode_utf8(text);
    }
}

/// Text without a NUL character has no NUL byte.
proof fn lemma_encoding_has_no_nul(path: Seq<char>)
    requires
        !path.contains('\0'),
    ensures
        forall|i: int| 0 <= i < encode_utf8(path).len() ==> encode_utf8(path)[i] != 0,
    decreases path.len(),
{
    if path.len() > 0 {
        let c = path[0] as u32;
        let head = encode_scalar(c);
        char_is_scalar(path[0]);
        assert(path.contains(path[0]));
        assert(c != 0) by {
            char_u32_cast(path[0], c);
            char_u32_cast('\0', 0);
        }
        assert(0 < c <= 0x7f ==> (c & 0x7F) as u8 != 0) by (bit_vector);
        assert forall|b: u8| (0xC0 | b) != 0 && (0xE0 | b) != 0 && (0xF0 | b) != 0 && (0x80 | b)
            != 0 by {
            assert((0xC0 | b) != 0 && (0xE0 | b) != 0 && (0xF0 | b) != 0 && (0x80 | b) != 0)
                by (bit_vector);
        }
        assert(forall|i: int| 0 <= i < head.len() ==> head[i] != 0);
        assert forall|x: char| path.drop_first().contains(x) implies path.contains(x) by {
            let k = path.drop_first().index_of(x);
            assert(path[k + 1] == x);
        }
        let tail = encode_utf8(path.drop_first());
        lemma_encoding_has_no_nul(path.drop_first());
        assert(encode_utf8(path) == head + tail);
        assert forall|i: int| 0 <= i < encode_utf8(path).len() implies encode_utf8(path)[i]
            != 0 by {
            if i < head.len() {
                assert(encode_utf8(path)[i] == head[i]);
            } else {
                assert(encode_utf8(path)[i] == tail[i - head.len()]);
            }
        }
    }
}

/// Text with a NUL character has a NUL byte.
proof fn lemma_nul_has_an_encoding(path: Seq<char>)
    requires
        path.contains('\0'),
    ensures
        encode_utf8(path).contains(0u8),
    decreases path.len(),
{
    let k = path.index_of('\0');
    let head = encode_scalar(path[0] as u32);
    let tail = encode_utf8(path.drop_first());
    assert(encode_utf8(path) == head + tail);
    if k == 0 {
        assert((0u32 & 0x7F) as u8 == 0u8) by (bit_vector);
        char_u32_cast('\0', 0);
        assert(head[0] == 0);
        assert(encode_utf8(path)[0] == 0);
    } else {
        assert(path.drop_first()[k - 1] == '\0');
        lemma_nul_has_an_encoding(path.drop_first());
        let i = tail.index_of(0u8);
        assert(encode_utf8(path)[head.len() + i] == 0);
    }
}

/// No byte before `nul_end` is a NUL byte.
proof fn lemma_no_nul_before_the_end(s: Seq<u8>)
    ensures
        nul_end(s) <= s.len(),
        forall|i: int| 0 <= i < nul_end(s) ==> s[i] != 0,
    decreases s.len(),
{
    if s.len() > 0 && s[0] != 0 {
        lemma_no_nul_before_the_end(s.drop_first());
        assert forall|i: int| 0 <= i < nul_end(s) implies s[i] != 0 by {
            if i > 0 {
                assert(s[i] == s.drop_first()[i - 1]);
            }
        }
    }
}

/// A path that comes out of a packet holds no NUL character.
pub proof fn law_path_holds_no_nul(s: Seq<u8>)
    ensures
        !path_at_start(s).contains('\0'),
{
    let text = s.take(nul_end(s) as int);
    lemma_no_nul_before_the_end(s);
    if valid_utf8(text) && decode_utf8(text).contains('\0') {
        lemma_nul_has_an_encoding(decode_utf8(text));
        decode_utf8_encode_utf8(text);
        let i = text.index_of(0u8);
        assert(text[i] == s[i]);
    }
}

/// A path without a NUL character comes out of a packet as it went in, whether
/// the packet ends behind it or a NUL byte and anything else follow.
pub proof fn law_path_reads_back(path: Seq<char>, rest: Seq<u8>)
    requires
        !path.contains('\0'),
        rest.len() == 0 || rest[0] == 0,
    ensures
        path_at_start(encode_utf8(path) + rest) == path,
{
    let bytes = encode_utf8(path);
    let s = bytes + rest;
    lemma_encoding_has_no_nul(path);
    lemma_nul_end(s, bytes.len() as int);
    assert(s.take(bytes.len() as int) =~= bytes);
    encode_utf8_valid_utf8(path);
    encode_utf8_decode_utf8(path);
}

/// A path behind the fields of a request comes out of it as it went in.
pub proof fn law_path_behind_fields_reads_back(fields: Seq<u8>, path: Seq<char>, rest: Seq<u8>)
    requires
        !path.contains('\0'),
        rest.len() == 0 || rest[0] == 0,
    ensures
        path_at(fields + encode_utf8(path) + rest, fields.len() as int) == path,
{
    let s = fields + encode_utf8(path) + rest;
    assert(s.skip(fields.len() as int) =~= encode_utf8(path) + rest);
    law_path_reads_back(path, rest);
}

/// Two paths come out of a rename request as they went in: the first one filled
/// up with NUL bytes, at least one, to a multiple of eight, then the second one.
pub proof fn law_two_paths_read_back(
    first: Seq<char>,
    padding: Seq<u8>,
    second: Seq<char>,
    rest: Seq<u8>,
)
    requires
        !first.contains('\0'),
        !second.contains('\0'),
        1 <= padding.len() <= 8,
        padding[0] == 0,
        (encode_utf8(first).len() + padding.len()) % 8 == 0,
        rest.len() == 0 || rest[0] == 0,
    ensures
        ({
            let s = encode_utf8(first) + padding + encode_utf8(second) + rest;
            &&& second_path_offset(s) <= s.len()
            &&& path_at_start(s) == first
            &&& path_at(s, second_path_offset(s) as int) == second
        }),
{
    let s = encode_utf8(first) + padding + encode_utf8(second) + rest;
    let tail = padding + encode_utf8(second) + rest;
    assert(s =~= encode_utf8(first) + tail);
    law_path_reads_back(first, tail);
    let at = (encode_utf8(first).len() + padding.len()) as int;
    assert(second_path_offset(s) == at);
    assert(s.skip(at) =~= encode_utf8(second) + rest);
    law_path_reads_back(second, rest);
}

/// The path behind the fields of a request is the text up to a NUL byte or to the end,
/// or empty where that text is no valid UTF-8.
pub proof fn law_path_is_the_text_before_the_nul(fields: Seq<u8>, text: Seq<u8>, rest: Seq<u8>)
    requires
        !text.contains(0u8),
        rest.len() == 0 || rest[0] == 0,
    ensures
        ({
            let path = path_at(fields + text + rest, fields.len() as int);
            &&& valid_utf8(text) ==> path == decode_utf8(text)
            &&& !valid_utf8(text) ==> path.len() == 0
        }),
{
    let s = text + rest;
    assert((fields + text + rest).skip(fields.len() as int) =~= s);
    assert forall|i: int| 0 <= i < text.len() implies s[i] != 0 by {
        assert(text.contains(text[i]));
    }
    lemma_nul_end(s, text.len() as int);
    assert(s.take(text.len() as int) =~= text);
}

/// The path at the start of a request is the text up to a NUL byte or to the end, or
/// empty where that text is no valid UTF-8.
pub proof fn law_first_path_is_the_text_before_the_nul(text: Seq<u8>, rest: Seq<u8>)
    requires
        !text.contains(0u8),
        rest.len() == 0 || rest[0] == 0,
    ensures
        valid_utf8(text) ==> path_at_start(text + rest) == decode_utf8(text),
        !valid_utf8(text) ==> path_at_start(text + rest).len() == 0,
{
    let s = text + rest;
    assert forall|i: int| 0 <= i < text.len() implies s[i] != 0 by {
        assert(text.contains(text[i]));
    }
    lemma_nul_end(s, text.len() as int);
    assert(s.take(text.len() as int) =~= text);
}

/// The second path of a rename request starts at a multiple of eight, behind the first
/// path and one more byte, and no further than that.
pub proof fn law_second_path_is_aligned(s: Seq<u8>)
    ensures
        second_path_offset(s) % 8 == 0,
        encode_utf8(path_at_start(s)).len() + 1 <= second_path_offset(s) <= encode_utf8(
            path_at_start(s),
        ).len() + 8,
{
}

/// Text without a NUL character has an encoding without a NUL byte, which is valid and
/// gives the text again.
pub proof fn law_text_is_its_encoding(path: Seq<char>)
    requires
        !path.contains('\0'),
    ensures
        !encode_utf8(path).contains(0u8),
        valid_utf8(encode_utf8(path)),
        decode_utf8(encode_utf8(path)) == path,
{
    lemma_encoding_has_no_nul(path);
    encode_utf8_valid_utf8(path);
    encode_utf8_decode_utf8(path);
}

} // verus!
