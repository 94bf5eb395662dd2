use vstd::prelude::*;
use vstd::string::*;
use vstd::utf8::*;
use vstd::slice::*;

verus! {

/// The `n` bytes of a fixed name buffer filled from `s`: the first `cap`
/// bytes of `s` (or all of them, when `s` is shorter), then zeros.
pub open spec fn padded_prefix(s: Seq<u8>, cap: int, n: int) -> Seq<u8> {
    Seq::new(n as nat, |i: int| if i < cap && i < s.len() { s[i] } else { 0u8 })
}

/// Index of the first zero byte of `buf` at or after `i`, or `buf.len()`.
pub open spec fn nul_from(buf: Seq<u8>, i: int) -> int
    decreases buf.len() - i,
{
    if i < 0 || i >= buf.len() {
        buf.len() as int
    } else if buf[i] == 0 {
        i
    } else {
        nul_from(buf, i + 1)
    }
}

/// The bytes of a name buffer before its first zero byte.
pub open spec fn buffer_text_bytes(buf: Seq<u8>) -> Seq<u8> {
    buf.take(nul_from(buf, 0))
}

pub proof fn lemma_nul_from_bounds(buf: Seq<u8>, i: int)
    requires
        0 <= i <= buf.len(),
    ensures
        i <= nul_from(buf, i) <= buf.len(),
        nul_from(buf, i) < buf.len() ==> buf[nul_from(buf, i)] == 0,
        forall|j: int| i <= j < nul_from(buf, i) ==> buf[j] != 0,
    decreases buf.len() - i,
{
    if i < buf.len() && buf[i] != 0 {
        lemma_nul_from_bounds(buf, i + 1);
    }
}

/// Fills a zeroed buffer of `N` bytes with at most `N - 1` leading bytes of
/// `s`, so that the buffer always keeps a terminating zero.
pub fn name_buffer<const N: usize>(s: &str) -> (buf: [u8; N])
    requires
        N >= 1,
    ensures
        buf@ == padded_prefix(s.spec_bytes(), N - 1, N as int),
{
    let mut buf = [0u8; N];
    let bytes = s.as_bytes();
    let len = if bytes.len() < N - 1 { bytes.len() } else { N - 1 };
    let mut i: usize = 0;
    while i < N
        invariant
            len <= N - 1,
            len <= bytes@.len(),
            len == bytes@.len() || len == N - 1,
            bytes@ == s.spec_bytes(),
            i <= N,
            buf@.len() == N,
            forall|j: int| 0 <= j < i ==> buf@[j] == padded_prefix(s.spec_bytes(), N - 1, N as int)[j],
        decreases N - i,
    {
        let ghost before = buf@;
        let ghost want = padded_prefix(s.spec_bytes(), N - 1, N as int)[i as int];
        if i < len {
            let b = bytes[i];
            assert(b == bytes@[i as int]);
            assert(want == b);
            buf[i] = b;
            assert(buf@[i as int] == b);
        } else {
            assert(want == 0u8);
            buf[i] = 0;
            assert(buf@[i as int] == 0u8);
        }
        assert forall|j: int| 0 <= j < i implies buf@[j] == before[j] by {}
        i = i + 1;
    }
    assert(buf@ =~= padded_prefix(s.spec_bytes(), N - 1, N as int));
    buf
}


/// Position of the first zero byte of a name buffer, or `N` when it has none.
pub fn text_end<const N: usize>(buf: &[u8; N]) -> (end: usize)
    ensures
        end == nul_from(buf@, 0),
{
    let mut i: usize = 0;
    while i < N && buf[i] != 0
        invariant
            i <= N,
            buf@.len() == N,
            nul_from(buf@, 0) == nul_from(buf@, i as int),
        decreases N - i,
    {
        i = i + 1;
    }
    i
}

/// `core::str::from_utf8`, keeping the slice on success. Its documentation
/// says it returns `Ok` exactly when the bytes are valid UTF-8, and the
/// string it returns borrows those same bytes.
#[verifier::external_body]
pub(crate) fn utf8_str(bytes: &[u8]) -> (r: Option<&str>)
    ensures
        r is Some <==> valid_utf8(bytes@),
        r matches Some(t) ==> t.spec_bytes() == bytes@,
{
    core::str::from_utf8(bytes).ok()
}

/// The characters that a name buffer reads as: those its bytes before the
/// first zero byte encode, or `"<invalid>"` when they are not valid UTF-8.
pub open spec fn buffer_text_chars(buf: Seq<u8>) -> Seq<char> {
    if valid_utf8(buffer_text_bytes(buf)) {
        decode_utf8(buffer_text_bytes(buf))
    } else {
        "<invalid>"@
    }
}

/// The text of a name buffer: the bytes before its first zero byte, read as
/// UTF-8, or `"<invalid>"` when they are not valid UTF-8.
pub fn buffer_text<const N: usize>(buf: &[u8; N]) -> (r: &str)
    ensures
        r@ == buffer_text_chars(buf@),
        valid_utf8(buffer_text_bytes(buf@)) ==> r.spec_bytes() == buffer_text_bytes(buf@),
        !valid_utf8(buffer_text_bytes(buf@)) ==> r@ == "<invalid>"@,
{
    let end = text_end(buf);
    proof {
        lemma_nul_from_bounds(buf@, 0);
    }
    let prefix = slice_subrange(buf.as_slice(), 0, end);
    assert(prefix@ =~= buffer_text_bytes(buf@));
    match utf8_str(prefix) {
        Some(t) => {
            proof {
                encode_utf8_decode_utf8(t@);
            }
            t
        },
        None => "<invalid>",
    }
}

/// Byte-wise equality of two slices.
pub fn bytes_eq(a: &[u8], b: &[u8]) -> (r: bool)
    ensures
        r == (a@ == b@),
{
    if a.len() != b.len() {
        return false;
    }
    let mut i: usize = 0;
    while i < a.len()
        invariant
            a@.len() == b@.len(),
            i <= a@.len(),
            forall|j: int| 0 <= j < i ==> a@[j] == b@[j],
        decreases a@.len() - i,
    {
        if a[i] != b[i] {
            return false;
        }
        i = i + 1;
    }
    assert(a@ =~= b@);
    true
}

/// Two strings hold the same characters exactly when they hold the same
/// UTF-8 bytes.
pub proof fn lemma_bytes_eq_iff_chars_eq(a: Seq<char>, b: Seq<char>)
    ensures
        (encode_utf8(a) == encode_utf8(b)) <==> (a == b),
{
    if encode_utf8(a) == encode_utf8(b) {
        encode_utf8_decode_utf8(a);
        encode_utf8_decode_utf8(b);
    }
}

/// Equality of two strings, compared byte by byte.
pub fn str_eq(a: &str, b: &str) -> (r: bool)
    ensures
        r == (a@ == b@),
        r == (a.spec_bytes() == b.spec_bytes()),
{
    let r = bytes_eq(a.as_bytes(), b.as_bytes());
    proof {
        lemma_bytes_eq_iff_chars_eq(a@, b@);
    }
    r
}


proof fn lemma_nul_at_len(buf: Seq<u8>, len: int, i: int)
    requires
        0 <= i <= len < buf.len(),
        buf[len] == 0,
        forall|j: int| 0 <= j < len ==> buf[j] != 0,
    ensures
        nul_from(buf, i) == len,
    decreases len - i,
{
    if i < len {
        lemma_nul_from_bounds(buf, i);
        lemma_nul_at_len(buf, len, i + 1);
    }
}

/// Round trip of a name buffer: a name whose UTF-8 encoding fits in `cap`
/// bytes and holds no zero byte is read back from the buffer unchanged.
pub proof fn law_name_buffer_round_trip(name: Seq<char>, cap: int, n: int)
    requires
        0 <= cap < n,
        encode_utf8(name).len() <= cap,
        forall|i: int| 0 <= i < encode_utf8(name).len() ==> encode_utf8(name)[i] != 0,
    ensures
        valid_utf8(buffer_text_bytes(padded_prefix(encode_utf8(name), cap, n))),
        buffer_text_bytes(padded_prefix(encode_utf8(name), cap, n)) == encode_utf8(name),
{
    let bytes = encode_utf8(name);
    let buf = padded_prefix(bytes, cap, n);
    lemma_nul_at_len(buf, bytes.len() as int, 0);
    assert(buf.take(bytes.len() as int) =~= bytes);
    encode_utf8_valid_utf8(name);
}


/// A longer ASCII name without zero characters is cut: the buffer reads
/// back as its first `cap` characters.
pub proof fn law_name_buffer_truncates(name: Seq<char>, cap: int, n: int)
    requires
        0 <= cap < n,
        cap < name.len(),
        is_ascii_chars(name),
        forall|i: int| 0 <= i < name.len() ==> #[trigger] name[i] != '\0',
    ensures
        buffer_text_chars(padded_prefix(encode_utf8(name), cap, n)) == name.take(cap),
{
    let e = encode_utf8(name);
    let t = name.take(cap);
    is_ascii_chars_encode_utf8(name);
    assert(is_ascii_chars(t));
    is_ascii_chars_encode_utf8(t);
    let et = encode_utf8(t);
    assert forall|i: int| 0 <= i < et.len() implies et[i] != 0 by {
        assert(t[i] == name[i]);
        assert(t[i] as u8 == et[i]);
        is_ascii_chars_nat_bound(name);
        assert((name[i] as nat) < 128);
        assert(name[i] != '\0');
    }
    law_name_buffer_round_trip(t, cap, n);
    assert forall|i: int| 0 <= i < n implies padded_prefix(e, cap, n)[i] == padded_prefix(
        et,
        cap,
        n,
    )[i] by {
        if i < cap {
            assert(t[i] == name[i]);
            assert(t[i] as u8 == et[i]);
            assert(name[i] as u8 == e[i]);
        }
    }
    assert(padded_prefix(e, cap, n) =~= padded_prefix(et, cap, n));
    encode_utf8_decode_utf8(t);
}

/// Lexicographic order on byte strings (the order of `str` and `String`):
/// `a` comes strictly before `b`.
pub open spec fn lex_lt(a: Seq<u8>, b: Seq<u8>) -> bool
    decreases a.len(),
{
    if a.len() == 0 {
        b.len() > 0
    } else if b.len() == 0 {
        false
    } else if a[0] < b[0] {
        true
    } else if a[0] > b[0] {
        false
    } else {
        lex_lt(a.drop_first(), b.drop_first())
    }
}

/// No byte string comes before itself.
pub proof fn lemma_lex_irreflexive(a: Seq<u8>)
    ensures
        !lex_lt(a, a),
    decreases a.len(),
{
    if a.len() > 0 {
        lemma_lex_irreflexive(a.drop_first());
    }
}

/// The order is transitive.
pub proof fn lemma_lex_transitive(a: Seq<u8>, b: Seq<u8>, c: Seq<u8>)
    requires
        lex_lt(a, b),
        lex_lt(b, c),
    ensures
        lex_lt(a, c),
    decreases a.len(),
{
    if a.len() > 0 && b.len() > 0 && c.len() > 0 && a[0] == b[0] && b[0] == c[0] {
        lemma_lex_transitive(a.drop_first(), b.drop_first(), c.drop_first());
    }
}

/// Two different byte strings are ordered one way or the other, never both.
pub proof fn lemma_lex_total(a: Seq<u8>, b: Seq<u8>)
    ensures
        a != b ==> (lex_lt(a, b) || lex_lt(b, a)),
        !(lex_lt(a, b) && lex_lt(b, a)),
    decreases a.len(),
{
    if a.len() > 0 && b.len() > 0 && a[0] == b[0] {
        lemma_lex_total(a.drop_first(), b.drop_first());
        if a.drop_first() == b.drop_first() {
            assert(a =~= seq![a[0]] + a.drop_first());
            assert(b =~= seq![b[0]] + b.drop_first());
        }
    } else if a.len() == 0 && b.len() == 0 {
        assert(a =~= b);
    }
}

proof fn lemma_lex_skip(a: Seq<u8>, b: Seq<u8>, i: int)
    requires
        0 <= i < a.len(),
        i < b.len(),
        a[i] == b[i],
    ensures
        lex_lt(a.skip(i), b.skip(i)) == lex_lt(a.skip(i + 1), b.skip(i + 1)),
{
    assert(a.skip(i).drop_first() =~= a.skip(i + 1));
    assert(b.skip(i).drop_first() =~= b.skip(i + 1));
}

/// Three-way comparison of byte strings: negative, zero or positive as `a`
/// comes before, equals, or comes after `b`.
pub fn compare_bytes(a: &[u8], b: &[u8]) -> (r: i8)
    ensures
        (r < 0) == lex_lt(a@, b@),
        (r == 0) == (a@ == b@),
        (r > 0) == lex_lt(b@, a@),
{
    let mut i: usize = 0;
    proof {
        assert(a@.skip(0) =~= a@);
        assert(b@.skip(0) =~= b@);
    }
    while i < a.len() && i < b.len() && a[i] == b[i]
        invariant
            i <= a@.len(),
            i <= b@.len(),
            a@.take(i as int) =~= b@.take(i as int),
            lex_lt(a@, b@) == lex_lt(a@.skip(i as int), b@.skip(i as int)),
            lex_lt(b@, a@) == lex_lt(b@.skip(i as int), a@.skip(i as int)),
        decreases a@.len() - i,
    {
        proof {
            lemma_lex_skip(a@, b@, i as int);
            lemma_lex_skip(b@, a@, i as int);
        }
        i = i + 1;
    }
    proof {
        lemma_lex_total(a@, b@);
    }
    if i < a.len() && i < b.len() {
        if a[i] < b[i] {
            -1
        } else {
            assert(a@ != b@) by {
                assert(a@[i as int] != b@[i as int]);
            }
            1
        }
    } else if i < b.len() {
        assert(a@ != b@) by {
            assert(a@.len() != b@.len());
        }
        -1
    } else if i < a.len() {
        assert(a@ != b@) by {
            assert(a@.len() != b@.len());
        }
        1
    } else {
        assert(a@ =~= a@.take(i as int));
        assert(b@ =~= b@.take(i as int));
        0
    }
}


/// What `String::from_utf8_lossy` makes of `bytes`: their characters, with
/// each invalid sequence replaced by U+FFFD.
pub uninterp spec fn lossy_utf8(bytes: Seq<u8>) -> Seq<char>;

/// `String::from_utf8_lossy`. Its result depends on the bytes alone; for
/// valid UTF-8 its documentation says it is the decoded string itself. How it
/// replaces invalid sequences is left unsaid here.
#[verifier::external_body]
pub fn utf8_lossy(bytes: &[u8]) -> (s: String)
    ensures
        s@ == lossy_utf8(bytes@),
        valid_utf8(bytes@) ==> s@ == decode_utf8(bytes@),
{
    String::from_utf8_lossy(bytes).into_owned()
}

} // verus!
