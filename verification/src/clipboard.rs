//! Copying text to the clipboard: the platform's clipboard commands are tried
//! in order, then the OSC 52 terminal escape sequence, which works over SSH.
//!
//! Running a command and writing to the terminal are the caller's work; this
//! module decides what to try next and builds the escape sequence.

use vstd::prelude::*;
use vstd::string::*;
use base64::{engine::general_purpose, Engine as _};

verus! {

/// Most terminals cap OSC 52 payloads around 100KB of base64; beyond that the
/// copy silently truncates, which is worse than failing.
pub const OSC52_MAX_BYTES: usize = 100_000;

/// The mechanism reported when the copy went through the OSC 52 sequence.
pub const OSC52_MECHANISM: &'static str = "OSC 52";

/// The operating system whose clipboard tools are tried.
#[derive(Clone, Copy, Debug, PartialEq, Eq, Structural)]
pub enum Platform {
    MacOs,
    Windows,
    /// Linux and the other Unix systems.
    Unix,
}

/// A clipboard command: the mechanism's name, the program, and its arguments.
/// The program reads the text to copy on its standard input.
#[derive(Clone, Debug)]
pub struct PlatformCommand {
    pub name: &'static str,
    pub command: &'static str,
    pub args: Vec<&'static str>,
}

/// A command as plain text: name, program, arguments.
pub type CommandView = (Seq<char>, Seq<char>, Seq<Seq<char>>);

impl PlatformCommand {
    pub open spec fn view(&self) -> CommandView {
        (self.name@, self.command@, self.args@.map_values(|a: &'static str| a@))
    }
}

/// The clipboard commands of each platform, in the order they are tried.
pub open spec fn command_table(platform: Platform) -> Seq<CommandView> {
    match platform {
        Platform::MacOs => seq![("pbcopy"@, "pbcopy"@, Seq::<Seq<char>>::empty())],
        Platform::Windows => seq![("clip"@, "clip"@, Seq::<Seq<char>>::empty())],
        Platform::Unix => seq![
            ("wl-copy"@, "wl-copy"@, Seq::<Seq<char>>::empty()),
            ("xclip"@, "xclip"@, seq!["-selection"@, "clipboard"@]),
            ("xsel"@, "xsel"@, seq!["--clipboard"@, "--input"@]),
        ],
    }
}

/// Why a copy could not be done.
#[derive(Clone, Copy, Debug, PartialEq, Eq, Structural)]
pub enum ClipboardError {
    /// No clipboard tool worked and the text is over [`OSC52_MAX_BYTES`].
    TooLargeForOsc52,
}

/// The next thing to do to copy a text.
#[derive(Debug)]
pub enum CopyStep {
    /// Run this command with the text on its standard input; if it succeeds,
    /// the copy is done under the command's name.
    RunCommand(PlatformCommand),
    /// Write this escape sequence to the terminal and flush it; the copy is then
    /// done under [`OSC52_MECHANISM`].
    WriteOsc52(String),
    /// Give up with this error.
    Fail(ClipboardError),
}

/// The character of a 6-bit value in the standard base64 alphabet (RFC 4648):
/// `A`-`Z`, `a`-`z`, `0`-`9`, `+`, `/`.
pub open spec fn base64_digit(v: int) -> char {
    if v < 26 {
        (65 + v) as char
    } else if v < 52 {
        (97 + v - 26) as char
    } else if v < 62 {
        (48 + v - 52) as char
    } else if v == 62 {
        '+'
    } else {
        '/'
    }
}

/// The 6-bit value of a character of the standard base64 alphabet.
pub open spec fn base64_value(c: char) -> int {
    let u = c as u32 as int;
    if 65 <= u <= 90 {
        u - 65
    } else if 97 <= u <= 122 {
        u - 71
    } else if 48 <= u <= 57 {
        u + 4
    } else if c == '+' {
        62
    } else {
        63
    }
}

/// The standard base64 encoding with padding (RFC 4648), as
/// `base64::engine::general_purpose::STANDARD` computes it: every group of
/// three bytes becomes four characters, and a last group of one or two bytes
/// becomes two or three characters padded with `=` to four.
pub open spec fn standard_base64(bytes: Seq<u8>) -> Seq<char>
    decreases bytes.len(),
{
    if bytes.len() == 0 {
        Seq::empty()
    } else if bytes.len() == 1 {
        let b0 = bytes[0] as int;
        seq![base64_digit(b0 / 4), base64_digit((b0 % 4) * 16), '=', '=']
    } else if bytes.len() == 2 {
        let b0 = bytes[0] as int;
        let b1 = bytes[1] as int;
        seq![base64_digit(b0 / 4), base64_digit((b0 % 4) * 16 + b1 / 16), base64_digit((b1 % 16) * 4), '=']
    } else {
        let b0 = bytes[0] as int;
        let b1 = bytes[1] as int;
        let b2 = bytes[2] as int;
        seq![
            base64_digit(b0 / 4),
            base64_digit((b0 % 4) * 16 + b1 / 16),
            base64_digit((b1 % 16) * 4 + b2 / 64),
            base64_digit(b2 % 64),
        ] + standard_base64(bytes.skip(3))
    }
}

/// Decodes padded standard base64: every four characters give three bytes, or
/// one or two when the group ends in `=` padding.
pub open spec fn base64_decoded(chars: Seq<char>) -> Seq<u8>
    decreases chars.len(),
{
    if chars.len() < 4 {
        Seq::empty()
    } else {
        let v0 = base64_value(chars[0]);
        let v1 = base64_value(chars[1]);
        let v2 = base64_value(chars[2]);
        let v3 = base64_value(chars[3]);
        let b0 = (v0 * 4 + v1 / 16) as u8;
        let b1 = ((v1 % 16) * 16 + v2 / 4) as u8;
        let b2 = ((v2 % 4) * 64 + v3) as u8;
        if chars[2] == '=' {
            seq![b0]
        } else if chars[3] == '=' {
            seq![b0, b1]
        } else {
            seq![b0, b1, b2] + base64_decoded(chars.skip(4))
        }
    }
}

proof fn lemma_base64_digit(v: int)
    requires
        0 <= v < 64,
    ensures
        base64_value(base64_digit(v)) == v,
        base64_digit(v) != '=',
{
}

/// Decoding the standard base64 encoding of bytes gives the bytes back.
pub proof fn law_base64_round_trip(bytes: Seq<u8>)
    ensures
        base64_decoded(standard_base64(bytes)) == bytes,
    decreases bytes.len(),
{
    if bytes.len() == 0 {
    } else if bytes.len() == 1 {
        let b0 = bytes[0] as int;
        lemma_base64_digit(b0 / 4);
        lemma_base64_digit((b0 % 4) * 16);
        assert(base64_decoded(standard_base64(bytes)) =~= bytes);
    } else if bytes.len() == 2 {
        let b0 = bytes[0] as int;
        let b1 = bytes[1] as int;
        lemma_base64_digit(b0 / 4);
        lemma_base64_digit((b0 % 4) * 16 + b1 / 16);
        lemma_base64_digit((b1 % 16) * 4);
        assert(base64_decoded(standard_base64(bytes)) =~= bytes);
    } else {
        let b0 = bytes[0] as int;
        let b1 = bytes[1] as int;
        let b2 = bytes[2] as int;
        lemma_base64_digit(b0 / 4);
        lemma_base64_digit((b0 % 4) * 16 + b1 / 16);
        lemma_base64_digit((b1 % 16) * 4 + b2 / 64);
        lemma_base64_digit(b2 % 64);
        let rest = bytes.skip(3);
        law_base64_round_trip(rest);
        let e = standard_base64(bytes);
        let head = seq![
            base64_digit(b0 / 4),
            base64_digit((b0 % 4) * 16 + b1 / 16),
            base64_digit((b1 % 16) * 4 + b2 / 64),
            base64_digit(b2 % 64),
        ];
        assert(e == head + standard_base64(rest));
        assert(e.skip(4) =~= standard_base64(rest));
        assert(base64_decoded(e) =~= seq![bytes[0], bytes[1], bytes[2]] + rest);
        assert(seq![bytes[0], bytes[1], bytes[2]] + rest =~= bytes);
    }
}

/// The number of characters the padded encoding of `n` bytes takes.
pub open spec fn padded_base64_len(n: int) -> int {
    4 * ((n + 2) / 3)
}

/// Calls `Engine::encode` of `base64::engine::general_purpose::STANDARD`, the
/// padded standard base64 encoding of RFC 4648, stated by [`standard_base64`].
/// The crate panics when the encoded length overflows `usize`, which `requires`
/// rules out.
#[verifier::external_body]
fn encode_standard_base64(bytes: &[u8]) -> (r: String)
    requires
        padded_base64_len(bytes@.len() as int) <= usize::MAX,
    ensures
        r@ == standard_base64(bytes@),
{
    general_purpose::STANDARD.encode(bytes)
}

/// The OSC 52 sequence that sets the clipboard to the given base64 payload.
pub open spec fn osc52_frame_of(encoded: Seq<char>) -> Seq<char> {
    "\x1b]52;c;"@ + encoded + "\x07"@
}

/// Wraps a base64 payload in the OSC 52 "set clipboard" escape sequence.
pub fn osc52_frame(encoded: &str) -> (r: String)
    ensures
        r@ == osc52_frame_of(encoded@),
        r@ == "\x1b]52;c;"@ + encoded@ + "\x07"@,
{
    let mut out = String::from_str("\x1b]52;c;");
    out.append(encoded);
    out.append("\x07");
    out
}

/// The OSC 52 sequence that copies `text`: its UTF-8 bytes, base64 encoded.
pub fn osc52_sequence(text: &str) -> (r: String)
    requires
        padded_base64_len(text.spec_bytes().len() as int) <= usize::MAX,
    ensures
        r@ == osc52_frame_of(standard_base64(text.spec_bytes())),
        r@.len() >= 8,
        r@.subrange(0, 7) == "\x1b]52;c;"@,
        r@[r@.len() - 1] == '\x07',
        base64_decoded(r@.subrange(7, r@.len() - 1)) == text.spec_bytes(),
        r@.subrange(7, r@.len() - 1) == standard_base64(text.spec_bytes()),
        forall|i: int| 7 <= i < r@.len() - 1 ==> is_base64_alphabet(#[trigger] r@[i]),
{
    let encoded = encode_standard_base64(text.as_bytes());
    proof {
        law_osc52_payload_decodes_to_text(text.spec_bytes());
        law_osc52_frame_keeps_payload(standard_base64(text.spec_bytes()));
        law_base64_alphabet(text.spec_bytes());
    }
    osc52_frame(encoded.as_str())
}

/// The OSC 52 fallback: the sequence to write, or an error when the text is
/// over [`OSC52_MAX_BYTES`] bytes, since a terminal would truncate it.
pub fn copy_via_osc52(text: &str) -> (r: Result<String, ClipboardError>)
    requires
        text.spec_bytes().len() <= usize::MAX,
    ensures
        text.spec_bytes().len() > OSC52_MAX_BYTES <==> r is Err,
        r matches Err(e) ==> e == ClipboardError::TooLargeForOsc52,
        r matches Ok(s) ==> s@ == osc52_frame_of(standard_base64(text.spec_bytes())),
{
    if text.len() > OSC52_MAX_BYTES {
        return Err(ClipboardError::TooLargeForOsc52);
    }
    Ok(osc52_sequence(text))
}

fn command(name: &'static str, args: Vec<&'static str>) -> (r: PlatformCommand)
    ensures
        r.name == name,
        r.command == name,
        r.args == args,
{
    PlatformCommand { name, command: name, args }
}

/// The clipboard commands of `platform`, in the order they are tried.
pub fn platform_commands(platform: Platform) -> (r: Vec<PlatformCommand>)
    ensures
        r@.map_values(|c: PlatformCommand| c.view()) == command_table(platform),
        platform == Platform::MacOs ==> r@.len() == 1 && r@[0].name@ == "pbcopy"@ && r@[0].command@ == "pbcopy"@
            && r@[0].args@.len() == 0,
        platform == Platform::Windows ==> r@.len() == 1 && r@[0].name@ == "clip"@ && r@[0].command@ == "clip"@
            && r@[0].args@.len() == 0,
        platform == Platform::Unix ==> {
            &&& r@.len() == 3
            &&& r@[0].name@ == "wl-copy"@ && r@[0].command@ == "wl-copy"@ && r@[0].args@.len() == 0
            &&& r@[1].name@ == "xclip"@ && r@[1].command@ == "xclip"@ && r@[1].args@.len() == 2
                && r@[1].args@[0]@ == "-selection"@ && r@[1].args@[1]@ == "clipboard"@
            &&& r@[2].name@ == "xsel"@ && r@[2].command@ == "xsel"@ && r@[2].args@.len() == 2
                && r@[2].args@[0]@ == "--clipboard"@ && r@[2].args@[1]@ == "--input"@
        },
{
    let mut r: Vec<PlatformCommand> = Vec::new();
    let ghost none: Seq<Seq<char>> = Seq::empty();
    match platform {
        Platform::MacOs => {
            r.push(command("pbcopy", Vec::new()));
            assert(r@[0].args@.map_values(|a: &'static str| a@) =~= none);
        },
        Platform::Windows => {
            r.push(command("clip", Vec::new()));
            assert(r@[0].args@.map_values(|a: &'static str| a@) =~= none);
        },
        Platform::Unix => {
            r.push(command("wl-copy", Vec::new()));
            let mut xclip: Vec<&'static str> = Vec::new();
            xclip.push("-selection");
            xclip.push("clipboard");
            r.push(command("xclip", xclip));
            let mut xsel: Vec<&'static str> = Vec::new();
            xsel.push("--clipboard");
            xsel.push("--input");
            r.push(command("xsel", xsel));
            assert(r@[0].args@.map_values(|a: &'static str| a@) =~= none);
            assert(r@[1].args@.map_values(|a: &'static str| a@) =~= seq!["-selection"@, "clipboard"@]);
            assert(r@[2].args@.map_values(|a: &'static str| a@) =~= seq!["--clipboard"@, "--input"@]);
        },
    }
    assert(r@.map_values(|c: PlatformCommand| c.view()) =~= command_table(platform));
    r
}

/// What to do next to copy `text` on `platform`, once `failed` of its clipboard
/// commands have been run and failed: the next command in order, then the
/// OSC 52 fallback.
pub fn copy(text: &str, platform: Platform, failed: usize) -> (step: CopyStep)
    requires
        text.spec_bytes().len() <= usize::MAX,
    ensures
        failed < command_table(platform).len() ==> (step matches CopyStep::RunCommand(c) && c.view()
            == command_table(platform)[failed as int]),
        failed >= command_table(platform).len() ==> match step {
            CopyStep::WriteOsc52(s) => text.spec_bytes().len() <= OSC52_MAX_BYTES && s@
                == osc52_frame_of(standard_base64(text.spec_bytes())),
            CopyStep::Fail(e) => text.spec_bytes().len() > OSC52_MAX_BYTES && e
                == ClipboardError::TooLargeForOsc52,
            CopyStep::RunCommand(_) => false,
        },
{
    let mut commands = platform_commands(platform);
    if failed < commands.len() {
        proof {
            assert(commands@.map_values(|c: PlatformCommand| c.view())[failed as int]
                == commands@[failed as int].view());
        }
        let c = commands.swap_remove(failed);
        return CopyStep::RunCommand(c);
    }
    assert(commands@.map_values(|c: PlatformCommand| c.view()).len() == commands@.len());
    match copy_via_osc52(text) {
        Ok(s) => CopyStep::WriteOsc52(s),
        Err(e) => CopyStep::Fail(e),
    }
}

/// The OSC 52 sequence for a text is the seven-character prefix `ESC ] 5 2 ; c ;`,
/// the payload and the one-character terminator `BEL`; the payload decodes back
/// to the text's bytes.
pub proof fn law_osc52_payload_decodes_to_text(bytes: Seq<u8>)
    ensures
        ({
            let s = osc52_frame_of(standard_base64(bytes));
            &&& s.len() >= 8
            &&& s.subrange(0, 7) == "\x1b]52;c;"@
            &&& s[s.len() - 1] == '\x07'
            &&& base64_decoded(s.subrange(7, s.len() - 1)) == bytes
        }),
{
    reveal_strlit("\x1b]52;c;");
    reveal_strlit("\x07");
    let e = standard_base64(bytes);
    let s = osc52_frame_of(e);
    assert(s.subrange(7, s.len() - 1) =~= e);
    assert(s.subrange(0, 7) =~= "\x1b]52;c;"@);
    law_base64_round_trip(bytes);
}

/// A character of the padded standard base64 alphabet: `A`-`Z`, `a`-`z`,
/// `0`-`9`, `+`, `/` and the padding `=`.
pub open spec fn is_base64_alphabet(c: char) -> bool {
    ||| 'A' <= c <= 'Z'
    ||| 'a' <= c <= 'z'
    ||| '0' <= c <= '9'
    ||| c == '+'
    ||| c == '/'
    ||| c == '='
}

/// The standard alphabet, value by value: 0-25 are `A`-`Z`, 26-51 are
/// `a`-`z`, 52-61 are `0`-`9`, 62 is `+` and 63 is `/`.
pub proof fn law_base64_digits(v: int)
    requires
        0 <= v < 64,
    ensures
        v < 26 ==> base64_digit(v) as u32 == 'A' as u32 + v,
        26 <= v < 52 ==> base64_digit(v) as u32 == 'a' as u32 + (v - 26),
        52 <= v < 62 ==> base64_digit(v) as u32 == '0' as u32 + (v - 52),
        v == 62 ==> base64_digit(v) == '+',
        v == 63 ==> base64_digit(v) == '/',
{
}

/// Every character of a standard base64 encoding is in the alphabet, and its
/// length is four characters for each started group of three bytes.
pub proof fn law_base64_alphabet(bytes: Seq<u8>)
    ensures
        forall|i: int| 0 <= i < standard_base64(bytes).len() ==> is_base64_alphabet(#[trigger] standard_base64(bytes)[i]),
        standard_base64(bytes).len() == padded_base64_len(bytes.len() as int),
    decreases bytes.len(),
{
    if bytes.len() > 3 {
        law_base64_alphabet(bytes.skip(3));
        let b0 = bytes[0] as int;
        let b1 = bytes[1] as int;
        let b2 = bytes[2] as int;
        let head = seq![
            base64_digit(b0 / 4),
            base64_digit((b0 % 4) * 16 + b1 / 16),
            base64_digit((b1 % 16) * 4 + b2 / 64),
            base64_digit(b2 % 64),
        ];
        let rest = standard_base64(bytes.skip(3));
        assert(standard_base64(bytes) == head + rest);
        assert forall|i: int| 0 <= i < (head + rest).len() implies is_base64_alphabet(#[trigger] (head + rest)[i]) by {
            if i >= 4 {
                assert((head + rest)[i] == rest[i - 4]);
            }
        }
    } else if bytes.len() == 3 {
        assert(bytes.skip(3).len() == 0);
        assert(standard_base64(bytes.skip(3)).len() == 0);
    }
}

/// The OSC 52 sequence of a payload is the prefix `ESC ] 5 2 ; c ;`, the
/// payload character for character, and `BEL`.
pub proof fn law_osc52_frame_keeps_payload(encoded: Seq<char>)
    ensures
        osc52_frame_of(encoded).len() == encoded.len() + 8,
        osc52_frame_of(encoded).subrange(0, 7) == "\x1b]52;c;"@,
        osc52_frame_of(encoded).subrange(7, encoded.len() + 7int) == encoded,
        osc52_frame_of(encoded)[encoded.len() + 7int] == '\x07',
{
    reveal_strlit("\x1b]52;c;");
    reveal_strlit("\x07");
    let s = osc52_frame_of(encoded);
    assert(s.subrange(0, 7) =~= "\x1b]52;c;"@);
    assert(s.subrange(7, encoded.len() + 7int) =~= encoded);
}

/// The clipboard commands, literally: `pbcopy` on macOS and `clip` on Windows,
/// each run with no arguments; elsewhere `wl-copy` with no arguments, then
/// `xclip -selection clipboard`, then `xsel --clipboard --input`. Each
/// command's name is its program.
pub proof fn law_clipboard_commands()
    ensures
        command_table(Platform::MacOs) == seq![("pbcopy"@, "pbcopy"@, Seq::<Seq<char>>::empty())],
        command_table(Platform::Windows) == seq![("clip"@, "clip"@, Seq::<Seq<char>>::empty())],
        command_table(Platform::Unix).len() == 3,
        command_table(Platform::Unix)[0] == ("wl-copy"@, "wl-copy"@, Seq::<Seq<char>>::empty()),
        command_table(Platform::Unix)[1] == ("xclip"@, "xclip"@, seq!["-selection"@, "clipboard"@]),
        command_table(Platform::Unix)[2] == ("xsel"@, "xsel"@, seq!["--clipboard"@, "--input"@]),
        forall|p: Platform, i: int| 0 <= i < command_table(p).len() ==> (#[trigger] command_table(p)[i]).0
            == command_table(p)[i].1,
{
}

} // verus!
