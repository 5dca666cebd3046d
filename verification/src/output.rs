use vstd::prelude::*;
use vstd::string::StringSliceAdditionalSpecFns;
use vstd::utf8::{decode_utf8, encode_utf8, valid_utf8};

verus! {

/// The byte that the interpreter reads when it asks for input: the plugin
/// never has any input for it.
pub const NO_INPUT: u8 = 0;

/// `n` is the position of the first NUL byte of `b`.
pub open spec fn is_first_nul(b: Seq<u8>, n: int) -> bool {
    &&& 0 <= n < b.len()
    &&& b[n] == 0
    &&& forall|j: int| 0 <= j < n ==> b[j] != 0
}

/// The bytes of a NUL-terminated C string: everything before the first NUL.
pub open spec fn c_string_bytes(b: Seq<u8>) -> Seq<u8> {
    b.take(choose|n: int| is_first_nul(b, n))
}

/// The notice written when an evaluation timed out.
pub open spec fn timeout_text() -> Seq<char> {
    "[ERROR] Timeout while executing forth. Resetting state\n"@
}

/// The notice written when an evaluation timed out.
pub fn timeout_notice() -> (res: &'static str)
    ensures
        res@ == timeout_text(),
{
    "[ERROR] Timeout while executing forth. Resetting state\n"
}

/// Calls `std::str::from_utf8`. Trusted claim: it succeeds exactly when
/// `bytes` are valid UTF-8 (as vstd defines it), and the text it returns is
/// made of exactly those bytes.
#[verifier::external_body]
fn utf8_to_str(bytes: &[u8]) -> (res: Option<&str>)
    ensures
        res is Some <==> valid_utf8(bytes@),
        res matches Some(s) ==> s.spec_bytes() == bytes@,
{
    std::str::from_utf8(bytes).ok()
}

/// Everything the Forth interpreter has written since the output was last
/// collected, as raw bytes.
pub struct OutputStream {
    bytes: Vec<u8>,
}

impl View for OutputStream {
    type V = Seq<u8>;

    closed spec fn view(&self) -> Seq<u8> {
        self.bytes@
    }
}

impl OutputStream {
    /// An empty stream.
    pub fn new() -> (res: OutputStream)
        ensures
            res@ == Seq::<u8>::empty(),
    {
        OutputStream { bytes: Vec::new() }
    }

    /// Records one byte written by the interpreter.
    pub fn output_byte(&mut self, c: u8)
        ensures
            final(self)@ == old(self)@.push(c),
    {
        self.bytes.push(c);
    }

    /// Records a NUL-terminated string written by the interpreter: the bytes
    /// before its first NUL.
    pub fn print_string(&mut self, c_str: &[u8])
        requires
            c_str@.contains(0u8),
        ensures
            final(self)@ == old(self)@ + c_string_bytes(c_str@),
    {
        let mut i: usize = 0;
        while i < c_str.len() && c_str[i] != 0
            invariant
                0 <= i <= c_str@.len(),
                c_str@.contains(0u8),
                forall|j: int| 0 <= j < i ==> c_str@[j] != 0,
                self@ == old(self)@ + c_str@.take(i as int),
            decreases c_str@.len() - i,
        {
            let ghost before = self@;
            self.bytes.push(c_str[i]);
            assert(c_str@.take(i + 1) == c_str@.take(i as int).push(c_str@[i as int]));
            assert(self@ == before.push(c_str@[i as int]));
            i = i + 1;
        }
        proof {
            if i == c_str@.len() {
                let k = choose|k: int| 0 <= k < c_str@.len() && c_str@[k] == 0u8;
                assert(c_str@[k] != 0);
            }
            assert(is_first_nul(c_str@, i as int));
            let n = choose|n: int| is_first_nul(c_str@, n);
            if n < i {
                assert(c_str@[n] != 0);
            } else if n > i {
                assert(c_str@[i as int] != 0);
            }
            assert(n == i);
        }
    }

    /// Writes the text `s` to the stream, as the plugin does for its own
    /// messages. The text goes through a C string, so it may hold no NUL.
    pub fn send_string(&mut self, s: &str)
        requires
            !s.spec_bytes().contains(0u8),
        ensures
            final(self)@ == old(self)@ + s.spec_bytes(),
    {
        let b = s.as_bytes();
        let mut i: usize = 0;
        while i < b.len()
            invariant
                0 <= i <= b@.len(),
                b@ == s.spec_bytes(),
                self@ == old(self)@ + b@.take(i as int),
            decreases b@.len() - i,
        {
            let ghost before = self@;
            self.bytes.push(b[i]);
            assert(b@.take(i + 1) == b@.take(i as int).push(b@[i as int]));
            assert(self@ == before.push(b@[i as int]));
            i = i + 1;
        }
        assert(b@.take(b@.len() as int) == b@);
    }

    /// Writes the notice that an evaluation timed out and the interpreter was
    /// reset.
    pub fn report_timeout(&mut self)
        ensures
            final(self)@ == old(self)@ + encode_utf8(timeout_text()),
    {
        let msg = timeout_notice();
        proof {
            reveal_strlit("[ERROR] Timeout while executing forth. Resetting state\n");
            assert(vstd::utf8::is_ascii_chars(msg@));
            vstd::utf8::is_ascii_chars_encode_utf8(msg@);
            assert(!msg.spec_bytes().contains(0u8));
        }
        self.send_string(msg);
    }

    /// Collects the output: empties the stream and returns its text, or
    /// `None` when the bytes are not valid UTF-8 (they are dropped then too).
    pub fn take_output(&mut self) -> (res: Option<String>)
        ensures
            final(self)@ == Seq::<u8>::empty(),
            res is Some <==> valid_utf8(old(self)@),
            res matches Some(t) ==> t@ == decode_utf8(old(self)@),
    {
        let mut taken: Vec<u8> = Vec::new();
        std::mem::swap(&mut taken, &mut self.bytes);
        match utf8_to_str(taken.as_slice()) {
            Some(s) => {
                proof {
                    vstd::utf8::encode_utf8_decode_utf8(s@);
                }
                Some(s.to_owned())
            },
            None => None,
        }
    }

    /// Collects the output, which must be valid UTF-8: empties the stream
    /// and returns its text.
    pub fn get_output(&mut self) -> (res: String)
        requires
            valid_utf8(old(self)@),
        ensures
            final(self)@ == Seq::<u8>::empty(),
            res@ == decode_utf8(old(self)@),
    {
        self.take_output().unwrap()
    }
}

/// UTF-8 encoding maps concatenation of texts to concatenation of bytes.
proof fn lemma_encode_utf8_concat(a: Seq<char>, b: Seq<char>)
    ensures
        encode_utf8(a + b) == encode_utf8(a) + encode_utf8(b),
    decreases a.len(),
{
    if a.len() == 0 {
        assert(a + b == b);
        assert(encode_utf8(a) + encode_utf8(b) == encode_utf8(b));
    } else {
        assert((a + b)[0] == a[0]);
        assert((a + b).drop_first() == a.drop_first() + b);
        lemma_encode_utf8_concat(a.drop_first(), b);
        let h = vstd::utf8::encode_scalar(a[0] as u32);
        assert(h + (encode_utf8(a.drop_first()) + encode_utf8(b))
            == (h + encode_utf8(a.drop_first())) + encode_utf8(b));
    }
}

/// Text written to the stream is read back unchanged, after the text that
/// was there before: collecting the output of `before` followed by the bytes
/// of `text` gives the text of `before` followed by `text`.
pub proof fn lemma_output_reads_back(before: Seq<u8>, text: Seq<char>)
    requires
        valid_utf8(before),
    ensures
        valid_utf8(before + encode_utf8(text)),
        decode_utf8(before + encode_utf8(text)) == decode_utf8(before) + text,
{
    let prefix = decode_utf8(before);
    vstd::utf8::decode_utf8_encode_utf8(before);
    lemma_encode_utf8_concat(prefix, text);
    vstd::utf8::encode_utf8_valid_utf8(prefix + text);
    vstd::utf8::encode_utf8_decode_utf8(prefix + text);
}

/// A buffer with a NUL at `k` has a first NUL, at `k` or before.
proof fn lemma_first_nul_at_or_before(b: Seq<u8>, k: int) -> (n: int)
    requires
        0 <= k < b.len(),
        b[k] == 0u8,
    ensures
        is_first_nul(b, n),
        n <= k,
    decreases k,
{
    if exists|j: int| 0 <= j < k && b[j] == 0u8 {
        let j = choose|j: int| 0 <= j < k && b[j] == 0u8;
        lemma_first_nul_at_or_before(b, j)
    } else {
        k
    }
}

/// The C string of a buffer holding a NUL is the part before the first NUL:
/// a prefix of the buffer, free of NUL, followed in the buffer by a NUL.
pub proof fn lemma_c_string_is_prefix_before_nul(b: Seq<u8>)
    requires
        b.contains(0u8),
    ensures
        c_string_bytes(b).len() < b.len(),
        c_string_bytes(b) == b.take(c_string_bytes(b).len() as int),
        b[c_string_bytes(b).len() as int] == 0u8,
        !c_string_bytes(b).contains(0u8),
{
    let k = choose|k: int| 0 <= k < b.len() && b[k] == 0u8;
    let m = lemma_first_nul_at_or_before(b, k);
    let n = choose|n: int| is_first_nul(b, n);
    if n < m {
        assert(b[n] != 0);
    } else if n > m {
        assert(b[m] != 0);
    }
    let c = c_string_bytes(b);
    assert(c == b.take(m));
    assert forall|i: int| 0 <= i < c.len() implies c[i] != 0u8 by {
        assert(c[i] == b[i]);
    }
}

/// A byte string without NUL, terminated by a NUL and followed by anything,
/// is read back as a C string exactly: printing it records the same bytes
/// as sending them directly.
pub proof fn lemma_c_string_of_terminated(b: Seq<u8>, rest: Seq<u8>)
    requires
        !b.contains(0u8),
    ensures
        (b.push(0u8) + rest).contains(0u8),
        c_string_bytes(b.push(0u8) + rest) == b,
{
    let buf = b.push(0u8) + rest;
    let m = b.len() as int;
    assert(buf[m] == 0u8);
    assert forall|j: int| 0 <= j < m implies buf[j] != 0 by {
        assert(buf[j] == b[j]);
    }
    assert(is_first_nul(buf, m));
    let n = choose|n: int| is_first_nul(buf, n);
    if n < m {
        assert(buf[n] != 0);
    } else if n > m {
        assert(buf[m] != 0);
    }
    assert(buf.take(m) == b);
}

} // verus!
