use crate::err::Error;
use crate::numeral::{decimal, numeral};
use vstd::prelude::*;
use vstd::utf8::{decode_utf8, encode_utf8, valid_utf8};

verus! {

/// A snapshot of one window, as the window manager reports it.
#[derive(Debug, Clone, Copy, PartialEq, Eq, Structural)]
pub struct Window {
    pub id: u32,
    pub has_focus: bool,
    pub is_minimized: bool,
    pub is_floating: bool,
}

impl Default for Window {
    fn default() -> (window: Window)
        ensures
            window == (Window { id: 0, has_focus: false, is_minimized: false, is_floating: false }),
    {
        Window { id: 0, has_focus: false, is_minimized: false, is_floating: false }
    }
}

/// One request to the window manager.
#[derive(Debug, Clone, Copy, PartialEq, Eq, Structural)]
pub enum Command {
    /// Minimize the window with this identifier.
    Minimize(u32),
    /// Give the focus to the window with this identifier.
    Focus(u32),
    /// Flip the floating state of the focused window.
    ToggleFloat,
    /// Ask for the list of windows.
    QueryWindows,
}

impl Command {
    /// The arguments that make up the request, in the order in which they are sent.
    pub open spec fn words(self) -> Seq<Seq<char>> {
        match self {
            Command::Minimize(id) => seq!["window"@, "--minimize"@, decimal(id as nat)],
            Command::Focus(id) => seq!["window"@, "--focus"@, decimal(id as nat)],
            Command::ToggleFloat => seq!["window"@, "--toggle"@, "float"@],
            Command::QueryWindows => seq!["query"@, "--windows"@],
        }
    }

    /// Spells the request out as the arguments to send.
    pub fn args(&self) -> (args: Vec<String>)
        ensures
            args.deep_view() == self.words(),
    {
        let mut args: Vec<String> = Vec::new();
        match self {
            Command::Minimize(id) => {
                args.push(String::from_str("window"));
                args.push(String::from_str("--minimize"));
                args.push(numeral(*id));
            },
            Command::Focus(id) => {
                args.push(String::from_str("window"));
                args.push(String::from_str("--focus"));
                args.push(numeral(*id));
            },
            Command::ToggleFloat => {
                args.push(String::from_str("window"));
                args.push(String::from_str("--toggle"));
                args.push(String::from_str("float"));
            },
            Command::QueryWindows => {
                args.push(String::from_str("query"));
                args.push(String::from_str("--windows"));
            },
        }
        args
    }
}

/// The arguments as they travel: each one's UTF-8 bytes, closed by a zero byte.
pub open spec fn terminated(args: Seq<Seq<char>>) -> Seq<u8>
    decreases args.len(),
{
    if args.len() == 0 {
        Seq::empty()
    } else {
        terminated(args.drop_last()) + encode_utf8(args.last()) + seq![0u8]
    }
}

/// The payload of a message: the arguments, then one more zero byte.
pub open spec fn payload(args: Seq<Seq<char>>) -> Seq<u8> {
    terminated(args) + seq![0u8]
}

/// The four bytes of `n`, least significant first.
pub open spec fn le_bytes(n: u32) -> Seq<u8> {
    seq![
        (n % 256) as u8,
        (n / 256 % 256) as u8,
        (n / 65536 % 256) as u8,
        (n / 16777216) as u8,
    ]
}

/// A whole message: the length of the payload, then the payload.
pub open spec fn frame(args: Seq<Seq<char>>) -> Seq<u8> {
    le_bytes(payload(args).len() as u32) + payload(args)
}

/// The number of bytes that the arguments hold between them.
pub open spec fn total_bytes(args: Seq<Seq<char>>) -> nat
    decreases args.len(),
{
    if args.len() == 0 {
        0
    } else {
        total_bytes(args.drop_last()) + encode_utf8(args.last()).len()
    }
}

/// The payload holds the bytes of the arguments, one zero byte for each
/// argument and one more at the end.
pub proof fn lemma_payload_len(args: Seq<Seq<char>>)
    ensures
        payload(args).len() == total_bytes(args) + args.len() + 1,
    decreases args.len(),
{
    if args.len() > 0 {
        lemma_payload_len(args.drop_last());
    }
}

/// The four bytes of a length give the length back, the first byte counting
/// least.
pub proof fn lemma_le_bytes_value(n: u32)
    ensures
        le_bytes(n).len() == 4,
        le_bytes(n)[0] + 256 * le_bytes(n)[1] + 65536 * le_bytes(n)[2] + 16777216 * le_bytes(
            n,
        )[3] == n,
{
}

/// A frame is four bytes longer than its payload, and opens with the length
/// of the payload.
pub proof fn lemma_frame_shape(args: Seq<Seq<char>>)
    requires
        payload(args).len() <= u32::MAX,
    ensures
        frame(args).len() == payload(args).len() + 4,
        frame(args).take(4) == le_bytes(payload(args).len() as u32),
        frame(args).skip(4) == payload(args),
        frame(args).last() == 0,
{
}

/// The first arguments of a list take no more room than the whole list.
proof fn lemma_terminated_grows(args: Seq<Seq<char>>, n: int)
    requires
        0 <= n <= args.len(),
    ensures
        terminated(args.take(n)).len() <= terminated(args).len(),
    decreases args.len() - n,
{
    if n == args.len() {
        assert(args.take(n) =~= args);
    } else {
        lemma_terminated_grows(args, n + 1);
        assert(args.take(n + 1).drop_last() =~= args.take(n));
    }
}

/// Whether the payload of `args` is short enough for its length to be sent.
pub fn fits(args: &Vec<String>) -> (fits: bool)
    ensures
        fits == (payload(args.deep_view()).len() <= u32::MAX),
{
    let ghost words = args.deep_view();
    let mut room: u32 = u32::MAX - 1;
    let mut i: usize = 0;
    while i < args.len()
        invariant
            i <= args.len(),
            words == args.deep_view(),
            room + terminated(words.take(i as int)).len() == u32::MAX - 1,
        decreases args.len() - i,
    {
        let len = args[i].as_str().as_bytes().len();
        proof {
            assert(words.take(i + 1).drop_last() =~= words.take(i as int));
            lemma_terminated_grows(words, i + 1);
        }
        if len >= room as usize {
            return false;
        }
        room = room - len as u32 - 1;
        i += 1;
    }
    assert(words.take(i as int) =~= words);
    true
}

/// Puts the message that carries `args` into `buf`.
///
/// Four bytes for the length and the payload are added behind what `buf`
/// holds, and the length is then written over the first four bytes of `buf`:
/// into an empty buffer this puts the frame and nothing else.
pub fn extend_from_args(args: &Vec<String>, buf: &mut Vec<u8>)
    requires
        payload(args.deep_view()).len() <= u32::MAX,
    ensures
        final(buf)@ == le_bytes(payload(args.deep_view()).len() as u32) + (old(buf)@
            + seq![0u8, 0u8, 0u8, 0u8] + payload(args.deep_view())).skip(4),
        old(buf)@.len() == 0 ==> final(buf)@ == frame(args.deep_view()),
{
    let ghost words = args.deep_view();
    let ghost head = old(buf)@ + seq![0u8, 0u8, 0u8, 0u8];
    let mut len: u32 = 0;
    buf.push(0);
    buf.push(0);
    buf.push(0);
    buf.push(0);
    let mut i: usize = 0;
    while i < args.len()
        invariant
            i <= args.len(),
            words == args.deep_view(),
            terminated(words).len() < u32::MAX,
            len == terminated(words.take(i as int)).len(),
            buf@ == head + terminated(words.take(i as int)),
        decreases args.len() - i,
    {
        let arg = args[i].as_str().as_bytes();
        proof {
            assert(words.take(i + 1).drop_last() =~= words.take(i as int));
            lemma_terminated_grows(words, i + 1);
        }
        buf.extend_from_slice(arg);
        len = len + arg.len() as u32;
        buf.push(0);
        len = len + 1;
        i += 1;
    }
    assert(words.take(i as int) =~= words);
    len = len + 1;
    buf.push(0);
    buf.set(0, (len % 256) as u8);
    buf.set(1, (len / 256 % 256) as u8);
    buf.set(2, (len / 65536 % 256) as u8);
    buf.set(3, (len / 16777216) as u8);
}

/// The text that a lossy decoding of `bytes` as UTF-8 gives: every part that is
/// not UTF-8 gives way to the replacement character.
pub uninterp spec fn lossy_text(bytes: Seq<u8>) -> Seq<char>;

/// Whether `text` is what the lossy decoding of `bytes` gives. Bytes that are
/// UTF-8 throughout give the text that they encode.
pub open spec fn decodes_to(bytes: Seq<u8>, text: Seq<char>) -> bool {
    &&& text == lossy_text(bytes)
    &&& valid_utf8(bytes) ==> text == decode_utf8(bytes)
}

/// Decodes bytes with `String::from_utf8_lossy`. That the text is a function
/// of the bytes, and that bytes which are UTF-8 throughout decode to the text
/// that they encode, is taken from the documentation of std and not proved.
#[verifier::external_body]
fn decode_lossy(bytes: &[u8]) -> (text: String)
    ensures
        text@ == lossy_text(bytes@),
        valid_utf8(bytes@) ==> text@ == decode_utf8(bytes@),
{
    String::from_utf8_lossy(bytes).into_owned()
}

/// The name of the window manager's socket for the user `user`.
pub fn socket_path(user: Option<&str>) -> (path: Result<String, Error>)
    ensures
        match user {
            Some(user) => path matches Ok(path) && path@ == "/tmp/yabai_"@ + user@ + ".socket"@,
            None => path matches Err(Error::NoUserEnv),
        },
{
    match user {
        Some(user) => {
            let mut path = String::from_str("/tmp/yabai_");
            path.append(user);
            path.append(".socket");
            Ok(path)
        },
        None => Err(Error::NoUserEnv),
    }
}

/// Reads what the window manager sent back, `buf` being all of it.
///
/// Nothing at all is a success without a text. A first byte `0x07` marks a
/// failure, told by the bytes behind it. Everything else is the text of a
/// success.
pub fn response(buf: &[u8]) -> (reply: Result<Option<String>, Error>)
    ensures
        match reply {
            Ok(None) => buf@.len() == 0,
            Ok(Some(text)) => buf@.len() > 0 && buf@[0] != 0x07 && decodes_to(buf@, text@),
            Err(Error::Yabai(message)) => buf@.len() > 0 && buf@[0] == 0x07 && decodes_to(
                buf@.skip(1),
                message@,
            ),
            Err(_) => false,
        },
{
    if buf.len() == 0 {
        return Ok(None);
    }
    if buf[0] == 0x07 {
        let message = vstd::slice::slice_subrange(buf, 1, buf.len());
        return Err(Error::Yabai(decode_lossy(message)));
    }
    Ok(Some(decode_lossy(buf)))
}

/// Settles what a query for the windows gave: `decoded` is absent where the
/// window manager sent no text, and holds the outcome of decoding it otherwise.
/// A missing text and a text that is no list of windows fail alike.
pub fn query_windows<E>(decoded: Option<Result<Vec<Window>, E>>) -> (windows: Result<
    Vec<Window>,
    Error,
>)
    ensures
        match decoded {
            Some(Ok(list)) => windows == Ok::<Vec<Window>, Error>(list),
            _ => windows matches Err(Error::Json),
        },
{
    match decoded {
        Some(Ok(list)) => Ok(list),
        _ => Err(Error::Json),
    }
}

} // verus!
