use vstd::prelude::*;

verus! {

/// `n` is the index of the first NUL byte of `f`, or its length when it
/// holds none.
pub open spec fn is_text_end(f: Seq<u8>, n: int) -> bool {
    &&& 0 <= n <= f.len()
    &&& forall|i: int| 0 <= i < n ==> f[i] != 0
    &&& (n == f.len() || f[n] == 0)
}

/// Length of the text in a NUL-terminated field (unique by
/// `lemma_text_end_unique`).
pub open spec fn text_len(f: Seq<u8>) -> int {
    choose|n: int| is_text_end(f, n)
}

/// The bytes of a NUL-terminated field: everything before the first NUL,
/// or the whole field when no NUL occurs in it.
pub open spec fn text_bytes(f: Seq<u8>) -> Seq<u8> {
    f.take(text_len(f))
}

pub open spec fn all_ascii(b: Seq<u8>) -> bool {
    forall|i: int| 0 <= i < b.len() ==> b[i] < 128
}

pub open spec fn ascii_chars(b: Seq<u8>) -> Seq<char> {
    b.map_values(|c: u8| c as char)
}

/// What `String::from_utf8_lossy` makes of a byte sequence.
pub uninterp spec fn lossy_text(b: Seq<u8>) -> Seq<char>;

/// Relies on `String::from_utf8_lossy`: the text depends on the bytes alone,
/// and valid UTF-8 (so in particular ASCII) comes back unchanged.
#[verifier::external_body]
fn lossy_string(b: &[u8]) -> (r: String)
    ensures
        r@ == lossy_text(b@),
        all_ascii(b@) ==> r@ == ascii_chars(b@),
{
    String::from_utf8_lossy(b).into_owned()
}

/// The text of bytes that are all ASCII: one character per byte.
pub fn ascii_string(b: &[u8]) -> (r: String)
    requires
        all_ascii(b@),
    ensures
        r@ == ascii_chars(b@),
{
    lossy_string(b)
}

pub proof fn lemma_text_end_unique(f: Seq<u8>, n: int, m: int)
    requires
        is_text_end(f, n),
        is_text_end(f, m),
    ensures
        n == m,
{
    if n < m {
        assert(f[n] != 0);
    } else if m < n {
        assert(f[m] != 0);
    }
}

proof fn lemma_text_len_is(f: Seq<u8>, n: int)
    requires
        is_text_end(f, n),
    ensures
        text_len(f) == n,
        text_bytes(f) == f.take(n),
{
    lemma_text_end_unique(f, n, text_len(f));
}

/// Position of the first NUL byte of `f[start..start + len]`, relative to
/// `start`, or `len` when there is none.
pub fn text_end(f: &[u8], start: usize, len: usize) -> (n: usize)
    requires
        start + len <= f@.len(),
    ensures
        is_text_end(f@.subrange(start as int, start + len), n as int),
{
    let ghost field = f@.subrange(start as int, start + len);
    let flen = f.len();
    let mut n: usize = 0;
    while n < len && f[start + n] != 0
        invariant
            n <= len,
            flen == f@.len(),
            start + len <= f@.len(),
            field == f@.subrange(start as int, start + len),
            forall|i: int| 0 <= i < n ==> field[i] != 0,
        decreases len - n,
    {
        n = n + 1;
    }
    n
}

/// Text of the NUL-terminated field `f[start..start + len]`: its bytes up to
/// the first NUL (or the field's end), read with lossy UTF-8 decoding.
pub fn field_text(f: &[u8], start: usize, len: usize) -> (r: String)
    requires
        start + len <= f@.len(),
    ensures
        r@ == lossy_text(text_bytes(f@.subrange(start as int, start + len))),
{
    let n = text_end(f, start, len);
    let ghost field = f@.subrange(start as int, start + len);
    proof {
        lemma_text_len_is(field, n as int);
    }
    let mut bytes: Vec<u8> = Vec::with_capacity(n);
    let flen = f.len();
    let mut i: usize = 0;
    while i < n
        invariant
            i <= n,
            flen == f@.len(),
            n <= len,
            start + len <= f@.len(),
            field == f@.subrange(start as int, start + len),
            bytes@ == field.take(i as int),
        decreases n - i,
    {
        bytes.push(f[start + i]);
        i = i + 1;
        assert(bytes@ =~= field.take(i as int));
    }
    lossy_string(bytes.as_slice())
}

/// A field that holds a text without NUL bytes, followed by a NUL and any
/// padding, reads back as exactly that text; so does a field that the text
/// fills to the end.
pub proof fn lemma_text_field_round_trip(s: Seq<u8>, pad: Seq<u8>)
    requires
        forall|i: int| 0 <= i < s.len() ==> s[i] != 0,
    ensures
        text_bytes(s + seq![0u8] + pad) == s,
        text_bytes(s) == s,
{
    let f = s + seq![0u8] + pad;
    assert(is_text_end(f, s.len() as int));
    lemma_text_len_is(f, s.len() as int);
    assert(f.take(s.len() as int) =~= s);
    assert(is_text_end(s, s.len() as int));
    lemma_text_len_is(s, s.len() as int);
    assert(s.take(s.len() as int) =~= s);
}

} // verus!
