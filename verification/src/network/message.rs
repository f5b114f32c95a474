//! Network message pieces: the fixed-width command-name string.

use vstd::prelude::*;
use vstd::utf8::encode_utf8;

use crate::consensus::encode::Cursor;
use crate::consensus::encode::Decodable;
use crate::consensus::encode::Encodable;
use crate::consensus::encode::Error;
use crate::consensus::encode::IoError;
use crate::util::text::push_char;

verus! {

/// The width of the command-name field on the wire.
pub const COMMAND_WIDTH: usize = 12;

/// A command string: a name logically bounded to twelve bytes, stored as
/// text, right-padded with null bytes on the wire.
#[derive(PartialEq, Eq, Clone, Debug)]
pub struct CommandString(pub String);

impl DeepView for CommandString {
    type V = Seq<char>;

    open spec fn deep_view(&self) -> Seq<char> {
        self.0@
    }
}

impl From<String> for CommandString {
    fn from(f: String) -> (r: CommandString) {
        CommandString(f)
    }
}

impl vstd::std_specs::convert::FromSpecImpl<String> for CommandString {
    open spec fn obeys_from_spec() -> bool {
        true
    }

    open spec fn from_spec(f: String) -> CommandString {
        CommandString(f)
    }
}

/// The wire bytes of a command name: its UTF-8 bytes, right-padded with
/// null bytes to the fixed width.
pub open spec fn command_enc(s: Seq<char>) -> Seq<u8> {
    encode_utf8(s) + Seq::new((COMMAND_WIDTH - encode_utf8(s).len()) as nat, |i: int| 0u8)
}

/// The command name read back from a fixed-width field: every nonzero byte,
/// as the character with its code point.
pub open spec fn command_dec_chars(raw: Seq<u8>) -> Seq<char> {
    raw.filter(|u: u8| u > 0).map_values(|u: u8| u as char)
}

/// What decoding a command string yields on the given bytes.
pub open spec fn command_dec(data: Seq<u8>) -> Result<(Seq<char>, int), Error> {
    if data.len() < COMMAND_WIDTH {
        Err(Error::Io(IoError::UnexpectedEof))
    } else {
        Ok((command_dec_chars(data.take(COMMAND_WIDTH as int)), COMMAND_WIDTH as int))
    }
}

impl Encodable for CommandString {
    open spec fn encoding(&self) -> Seq<u8> {
        command_enc(self.0@)
    }

    /// A name whose byte length exceeds the fixed width cannot be encoded;
    /// it is an error, never a silent truncation.
    open spec fn encodable(&self) -> bool {
        encode_utf8(self.0@).len() <= COMMAND_WIDTH
    }

    open spec fn enc_error(&self) -> Error {
        Error::UnrecognizedNetworkCommand(self.0)
    }

    #[verifier::loop_isolation(false)]
    fn consensus_encode(&self, s: &mut Vec<u8>) -> (r: Result<usize, Error>) {
        let strbytes = self.0.as_str().as_bytes();
        if strbytes.len() > COMMAND_WIDTH {
            return Err(Error::UnrecognizedNetworkCommand(self.0.clone()));
        }
        let mut rawbytes: [u8; 12] = [0u8; 12];
        let n = strbytes.len();
        let mut x: usize = 0;
        while x < n
            invariant
                x <= n,
                forall|j: int| 0 <= j < x ==> rawbytes@[j] == strbytes@[j],
                forall|j: int| x <= j < 12 ==> rawbytes@[j] == 0u8,
            decreases n - x,
        {
            rawbytes[x] = strbytes[x];
            x = x + 1;
        }
        proof {
            assert(rawbytes@ =~= self.encoding());
        }
        rawbytes.consensus_encode(s)
    }
}

impl Decodable for CommandString {
    open spec fn decode_spec(data: Seq<u8>) -> Result<(Seq<char>, int), Error> {
        command_dec(data)
    }

    proof fn lemma_decode_consumes(data: Seq<u8>) {
    }

    #[verifier::loop_isolation(false)]
    fn consensus_decode(d: &mut Cursor) -> (r: Result<CommandString, Error>) {
        let rawbytes = <[u8; 12] as Decodable>::consensus_decode(d)?;
        let ghost raw = rawbytes@;
        proof {
            assert(rawbytes.deep_view() =~= rawbytes@);
        }
        let mut rv = String::new();
        let mut x: usize = 0;
        proof {
            reveal(Seq::<u8>::filter);
            assert(raw.take(0) =~= Seq::<u8>::empty());
            assert(command_dec_chars(raw.take(0)) =~= Seq::<char>::empty());
        }
        while x < 12
            invariant
                x <= 12,
                rv@ == command_dec_chars(raw.take(x as int)),
            decreases 12 - x,
        {
            let u = *vstd::array::array_index_get(&rawbytes, x);
            proof {
                reveal(Seq::<u8>::filter);
                assert(raw.take(x + 1).drop_last() =~= raw.take(x as int));
                assert(raw.take(x + 1).last() == raw[x as int]);
                if u > 0 {
                    assert(command_dec_chars(raw.take(x + 1)) =~= command_dec_chars(
                        raw.take(x as int),
                    ).push(u as char));
                } else {
                    assert(command_dec_chars(raw.take(x + 1)) =~= command_dec_chars(
                        raw.take(x as int),
                    ));
                }
            }
            if u > 0 {
                push_char(&mut rv, u as char);
            }
            x = x + 1;
        }
        proof {
            assert(raw.take(12) =~= raw);
        }
        Ok(CommandString(rv))
    }
}

/// Round trip for command strings: a pure-ASCII name without null
/// characters that fits the fixed width decodes back to itself, with the
/// null padding stripped. A name longer than the width fails to encode at
/// all, which the encoding contract states.
pub proof fn lemma_command_string_round_trip(c: CommandString, rest: Seq<u8>)
    requires
        c.0@.len() <= COMMAND_WIDTH,
        vstd::utf8::is_ascii_chars(c.0@),
        forall|i: int| 0 <= i < c.0@.len() ==> c.0@[i] != '\0',
    ensures
        c.encodable(),
        command_dec(c.encoding() + rest) == Ok::<(Seq<char>, int), Error>((
            c.0@,
            COMMAND_WIDTH as int,
        )),
{
    let s = c.0@;
    vstd::utf8::is_ascii_chars_encode_utf8(s);
    let enc = command_enc(s);
    assert((enc + rest).take(COMMAND_WIDTH as int) =~= enc);
    lemma_command_filter_pad(s, (COMMAND_WIDTH - encode_utf8(s).len()) as nat);
}

/// Filtering any zero-padded form of an ASCII, null-free name's bytes keeps
/// exactly the name's bytes, which map back to its characters.
proof fn lemma_command_filter_pad(s: Seq<char>, n: nat)
    requires
        vstd::utf8::is_ascii_chars(s),
        forall|i: int| 0 <= i < s.len() ==> s[i] != '\0',
    ensures
        command_dec_chars(encode_utf8(s) + Seq::new(n, |i: int| 0u8)) == s,
    decreases n,
{
    vstd::utf8::is_ascii_chars_encode_utf8(s);
    reveal(Seq::<u8>::filter);
    let enc = encode_utf8(s) + Seq::new(n, |i: int| 0u8);
    if n == 0 {
        assert(enc =~= encode_utf8(s));
        lemma_command_filter_chars(s);
    } else {
        let shorter = encode_utf8(s) + Seq::new((n - 1) as nat, |i: int| 0u8);
        assert(enc.drop_last() =~= shorter);
        assert(enc.last() == 0u8);
        assert(enc.filter(|u: u8| u > 0) == shorter.filter(|u: u8| u > 0));
        lemma_command_filter_pad(s, (n - 1) as nat);
        assert(command_dec_chars(enc) =~= command_dec_chars(shorter));
    }
}

/// With no padding at all, filtering keeps every byte of an ASCII,
/// null-free name, and mapping returns the original characters.
proof fn lemma_command_filter_chars(s: Seq<char>)
    requires
        vstd::utf8::is_ascii_chars(s),
        forall|i: int| 0 <= i < s.len() ==> s[i] != '\0',
    ensures
        command_dec_chars(encode_utf8(s)) == s,
    decreases s.len(),
{
    vstd::utf8::is_ascii_chars_encode_utf8(s);
    reveal(Seq::<u8>::filter);
    let bytes = encode_utf8(s);
    if s.len() == 0 {
        assert(bytes =~= Seq::<u8>::empty());
        assert(command_dec_chars(bytes) =~= Seq::<char>::empty());
    } else {
        let front = s.drop_last();
        assert(vstd::utf8::is_ascii_chars(front));
        vstd::utf8::is_ascii_chars_encode_utf8(front);
        assert(bytes.drop_last() =~= encode_utf8(front)) by {
            assert(encode_utf8(front).len() == front.len());
            assert forall|i: int| 0 <= i < front.len() implies bytes.drop_last()[i] == encode_utf8(
                front,
            )[i] by {
                assert(bytes[i] == s[i] as u8);
                assert(encode_utf8(front)[i] == front[i] as u8);
                assert(front[i] == s[i]);
            }
        }
        assert(bytes.last() == s.last() as u8);
        assert(s.last() as u8 > 0) by {
            assert(s.last() != '\0');
            assert('\0' <= s.last() <= '\u{7f}');
        }
        lemma_command_filter_chars(front);
        assert(bytes.filter(|u: u8| u > 0) =~= encode_utf8(front).filter(|u: u8| u > 0).push(
            s.last() as u8,
        ));
        assert((s.last() as u8) as char == s.last());
        assert(command_dec_chars(bytes) =~= command_dec_chars(encode_utf8(front)).push(s.last()));
        assert(command_dec_chars(encode_utf8(front)).push(s.last()) =~= s);
    }
}

} // verus!
