//! Debug output generation for exercising the capture: the messages the test
//! application sends, its random payloads and its handling of typed input.

use rand::Rng;
use vstd::prelude::*;

use crate::text::{
    decimal, eq_ignore_ascii_case, equal_ignoring_ascii_case, push_decimal, trim, trimmed,
};

verus! {

#[verifier::external_type_specification]
#[verifier::external_body]
pub struct ExThreadRng(rand::rngs::ThreadRng);

/// `rand::thread_rng`: the thread-local random number generator.
#[verifier::external_body]
fn thread_rng() -> rand::rngs::ThreadRng {
    rand::thread_rng()
}

/// `rand::Rng::gen_range` over `0..bound`: a random index below `bound` (the range
/// must not be empty).
#[verifier::external_body]
fn gen_index(rng: &mut rand::rngs::ThreadRng, bound: usize) -> (r: usize)
    requires
        bound > 0,
    ensures
        r < bound,
{
    rng.gen_range(0..bound)
}

/// Collects characters into a string (`FromIterator<char>` for `String`).
#[verifier::external_body]
fn string_from_chars(chars: &Vec<char>) -> (r: String)
    ensures
        r@ == chars@,
{
    chars.iter().collect()
}

/// The number of characters random payloads are drawn from.
pub const CHARSET_LEN: usize = 62;

/// The `i`-th payload character: `A`-`Z`, then `a`-`z`, then `0`-`9`.
pub open spec fn charset_char(i: int) -> char {
    if i < 26 {
        (65 + i) as char
    } else if i < 52 {
        (97 + i - 26) as char
    } else {
        (48 + i - 52) as char
    }
}

/// Whether a character is an ASCII letter or digit.
pub open spec fn is_alphanumeric(c: char) -> bool {
    ('A' <= c && c <= 'Z') || ('a' <= c && c <= 'z') || ('0' <= c && c <= '9')
}

fn charset_at(i: usize) -> (c: char)
    requires
        i < CHARSET_LEN,
    ensures
        c == charset_char(i as int),
        is_alphanumeric(c),
{
    let code: u8 = if i < 26 {
        65 + i as u8
    } else if i < 52 {
        97 + (i - 26) as u8
    } else {
        48 + (i - 52) as u8
    };
    code as char
}

/// Random alphanumeric data of the given length.
pub fn generate_random_data(length: usize) -> (r: String)
    ensures
        r@.len() == length,
        forall|i: int| 0 <= i < r@.len() ==> is_alphanumeric(#[trigger] r@[i]),
{
    let mut rng = thread_rng();
    let mut chars: Vec<char> = Vec::new();
    let mut n: usize = 0;
    while n < length
        invariant
            n <= length,
            chars@.len() == n,
            forall|i: int| 0 <= i < chars@.len() ==> is_alphanumeric(#[trigger] chars@[i]),
        decreases length - n,
    {
        let idx = gen_index(&mut rng, CHARSET_LEN);
        let c = charset_at(idx);
        chars.push(c);
        n = n + 1;
    }
    string_from_chars(&chars)
}

/// Appends `[text] `-style pieces: `prefix`, `text`, `suffix`.
fn append3(out: &mut String, prefix: &str, text: &str, suffix: &str)
    ensures
        final(out)@ == old(out)@ + prefix@ + text@ + suffix@,
{
    out.append(prefix);
    out.append(text);
    out.append(suffix);
}

/// The message of the basic mode: `[tag] [timestamp] Message i/count: message`.
pub fn basic_message(tag: &str, timestamp: &str, i: u32, count: u32, message: &str) -> (r: String)
    ensures
        r@ == "["@ + tag@ + "] ["@ + timestamp@ + "] Message "@ + decimal(i as nat) + "/"@
            + decimal(count as nat) + ": "@ + message@,
{
    let mut s = String::new();
    append3(&mut s, "[", tag, "] [");
    append3(&mut s, "", timestamp, "] Message ");
    push_decimal(&mut s, i as u64);
    s.append("/");
    push_decimal(&mut s, count as u64);
    append3(&mut s, ": ", message, "");
    proof {
        reveal_strlit("");
    }
    s
}

/// Whether the tools pause after sending message `i` of `count` (counting from 1): after
/// every message but the last.
pub fn pause_after(i: u32, count: u32) -> (r: bool)
    ensures
        r == (i < count),
{
    i < count
}

/// The number of tags the multi-tag mode picks from.
pub const TAG_COUNT: usize = 6;

/// The tags of the multi-tag mode, in order.
pub open spec fn tag_at(i: int) -> Seq<char> {
    if i == 0 {
        "INFO"@
    } else if i == 1 {
        "DEBUG"@
    } else if i == 2 {
        "WARN"@
    } else if i == 3 {
        "ERROR"@
    } else if i == 4 {
        "TRACE"@
    } else {
        "VERBOSE"@
    }
}

/// The `i`-th tag of the multi-tag mode.
pub fn multi_tag(i: usize) -> (r: &'static str)
    requires
        i < TAG_COUNT,
    ensures
        r@ == tag_at(i as int),
{
    if i == 0 {
        "INFO"
    } else if i == 1 {
        "DEBUG"
    } else if i == 2 {
        "WARN"
    } else if i == 3 {
        "ERROR"
    } else if i == 4 {
        "TRACE"
    } else {
        "VERBOSE"
    }
}

/// A tag of the multi-tag mode chosen at random.
pub fn random_tag() -> (r: &'static str)
    ensures
        exists|i: int| 0 <= i < TAG_COUNT && r@ == tag_at(i),
{
    let mut rng = thread_rng();
    let i = gen_index(&mut rng, TAG_COUNT);
    multi_tag(i)
}

/// The text that goes with a level tag; `Message` for an unknown tag.
pub open spec fn level_text(tag: Seq<char>) -> Seq<char> {
    if tag == "ERROR"@ {
        "Critical failure detected!"@
    } else if tag == "WARN"@ {
        "Warning: potential issue"@
    } else if tag == "INFO"@ {
        "Informational message"@
    } else if tag == "DEBUG"@ {
        "Debug details here"@
    } else if tag == "TRACE"@ {
        "Trace: entering function"@
    } else if tag == "VERBOSE"@ {
        "Verbose: detailed trace data"@
    } else {
        "Message"@
    }
}

/// The text that goes with a level tag in the multi-tag mode.
pub fn level_message(tag: &str) -> (r: &'static str)
    ensures
        r@ == level_text(tag@),
{
    if crate::text::same_text(tag, "ERROR") {
        "Critical failure detected!"
    } else if crate::text::same_text(tag, "WARN") {
        "Warning: potential issue"
    } else if crate::text::same_text(tag, "INFO") {
        "Informational message"
    } else if crate::text::same_text(tag, "DEBUG") {
        "Debug details here"
    } else if crate::text::same_text(tag, "TRACE") {
        "Trace: entering function"
    } else if crate::text::same_text(tag, "VERBOSE") {
        "Verbose: detailed trace data"
    } else {
        "Message"
    }
}

/// The message of the multi-tag mode: `[tag] [timestamp] #i: level - random`.
pub fn multi_tag_message(tag: &str, timestamp: &str, i: u32, level: &str, random: &str) -> (r:
    String)
    ensures
        r@ == "["@ + tag@ + "] ["@ + timestamp@ + "] #"@ + decimal(i as nat) + ": "@ + level@
            + " - "@ + random@,
{
    let mut s = String::new();
    append3(&mut s, "[", tag, "] [");
    append3(&mut s, "", timestamp, "] #");
    push_decimal(&mut s, i as u64);
    append3(&mut s, ": ", level, " - ");
    append3(&mut s, "", random, "");
    proof {
        reveal_strlit("");
    }
    s
}

/// The message of the continuous mode: `[tag] [timestamp] Continuous #n: message`.
pub fn continuous_message(tag: &str, timestamp: &str, n: u64, message: &str) -> (r: String)
    ensures
        r@ == "["@ + tag@ + "] ["@ + timestamp@ + "] Continuous #"@ + decimal(n as nat) + ": "@
            + message@,
{
    let mut s = String::new();
    append3(&mut s, "[", tag, "] [");
    append3(&mut s, "", timestamp, "] Continuous #");
    push_decimal(&mut s, n);
    append3(&mut s, ": ", message, "");
    proof {
        reveal_strlit("");
    }
    s
}

/// The message of the burst mode: `[BURST] #i: data`.
pub fn burst_message(i: u32, data: &str) -> (r: String)
    ensures
        r@ == "[BURST] #"@ + decimal(i as nat) + ": "@ + data@,
{
    let mut s = String::from_str("[BURST] #");
    push_decimal(&mut s, i as u64);
    s.append(": ");
    s.append(data);
    s
}

/// The message of the pattern mode: `pattern @timestamp`.
pub fn pattern_message(pattern: &str, timestamp: &str) -> (r: String)
    ensures
        r@ == pattern@ + " @"@ + timestamp@,
{
    let mut s = String::from_str(pattern);
    s.append(" @");
    s.append(timestamp);
    s
}

/// The message of the interactive mode: `[tag] [timestamp] input`.
pub fn interactive_message(tag: &str, timestamp: &str, input: &str) -> (r: String)
    ensures
        r@ == "["@ + tag@ + "] ["@ + timestamp@ + "] "@ + input@,
{
    let mut s = String::new();
    append3(&mut s, "[", tag, "] [");
    append3(&mut s, "", timestamp, "] ");
    append3(&mut s, "", input, "");
    proof {
        reveal_strlit("");
    }
    s
}

/// The number of message patterns of the pattern mode.
pub const PATTERN_COUNT: usize = 16;

/// The message patterns of the pattern mode with their categories, in order.
pub open spec fn pattern_at(i: int) -> (Seq<char>, Seq<char>) {
    if i == 0 {
        ("[APP:Main] Starting application v1.0.0"@, "App lifecycle"@)
    } else if i == 1 {
        ("[APP:Main] Configuration loaded from config.json"@, "App lifecycle"@)
    } else if i == 2 {
        ("[DB:Query] SELECT * FROM users WHERE id = 123"@, "Database"@)
    } else if i == 3 {
        ("[DB:Query] INSERT INTO logs (msg) VALUES ('test')"@, "Database"@)
    } else if i == 4 {
        ("[HTTP:Request] GET /api/users/123 HTTP/1.1"@, "HTTP"@)
    } else if i == 5 {
        ("[HTTP:Response] 200 OK (45ms)"@, "HTTP"@)
    } else if i == 6 {
        ("[PERF] Frame time: 16.7ms (60 FPS)"@, "Performance"@)
    } else if i == 7 {
        ("[PERF] Memory usage: 256MB / 1024MB"@, "Performance"@)
    } else if i == 8 {
        ("[SECURITY] Authentication successful for user 'admin'"@, "Security"@)
    } else if i == 9 {
        ("[SECURITY] Failed login attempt from 192.168.1.100"@, "Security"@)
    } else if i == 10 {
        ("[CACHE] Cache hit for key 'user:123'"@, "Cache"@)
    } else if i == 11 {
        ("[CACHE] Cache miss - loading from database"@, "Cache"@)
    } else if i == 12 {
        ("[ERROR] NullReferenceException in ProcessData()"@, "Error"@)
    } else if i == 13 {
        ("[ERROR] Connection timeout after 30s"@, "Error"@)
    } else if i == 14 {
        ("[WARN] Deprecated API usage detected"@, "Warning"@)
    } else {
        ("[WARN] Low disk space: 500MB remaining"@, "Warning"@)
    }
}

/// The `i`-th message pattern of the pattern mode and its category.
pub fn test_pattern(i: usize) -> (r: (&'static str, &'static str))
    requires
        i < PATTERN_COUNT,
    ensures
        (r.0@, r.1@) == pattern_at(i as int),
{
    if i == 0 {
        ("[APP:Main] Starting application v1.0.0", "App lifecycle")
    } else if i == 1 {
        ("[APP:Main] Configuration loaded from config.json", "App lifecycle")
    } else if i == 2 {
        ("[DB:Query] SELECT * FROM users WHERE id = 123", "Database")
    } else if i == 3 {
        ("[DB:Query] INSERT INTO logs (msg) VALUES ('test')", "Database")
    } else if i == 4 {
        ("[HTTP:Request] GET /api/users/123 HTTP/1.1", "HTTP")
    } else if i == 5 {
        ("[HTTP:Response] 200 OK (45ms)", "HTTP")
    } else if i == 6 {
        ("[PERF] Frame time: 16.7ms (60 FPS)", "Performance")
    } else if i == 7 {
        ("[PERF] Memory usage: 256MB / 1024MB", "Performance")
    } else if i == 8 {
        ("[SECURITY] Authentication successful for user 'admin'", "Security")
    } else if i == 9 {
        ("[SECURITY] Failed login attempt from 192.168.1.100", "Security")
    } else if i == 10 {
        ("[CACHE] Cache hit for key 'user:123'", "Cache")
    } else if i == 11 {
        ("[CACHE] Cache miss - loading from database", "Cache")
    } else if i == 12 {
        ("[ERROR] NullReferenceException in ProcessData()", "Error")
    } else if i == 13 {
        ("[ERROR] Connection timeout after 30s", "Error")
    } else if i == 14 {
        ("[WARN] Deprecated API usage detected", "Warning")
    } else {
        ("[WARN] Low disk space: 500MB remaining", "Warning")
    }
}

/// What a line typed in the interactive mode asks for.
#[derive(Debug)]
pub enum InputAction {
    /// The line is `quit` (ignoring ASCII case): stop.
    Quit,
    /// The line is blank: send nothing.
    Skip,
    /// Send this text (the line without surrounding whitespace).
    Send(String),
}

/// Decides what a typed line asks for: its text without surrounding whitespace is
/// `quit` (ignoring ASCII case), blank, or the text to send.
pub fn classify_input(line: &str) -> (r: InputAction)
    ensures
        ({
            let t = trimmed(line@);
            &&& equal_ignoring_ascii_case(t, "quit"@) ==> r is Quit
            &&& !equal_ignoring_ascii_case(t, "quit"@) && t.len() == 0 ==> r is Skip
            &&& !equal_ignoring_ascii_case(t, "quit"@) && t.len() > 0 ==> (r matches InputAction::Send(
                x,
            ) && x@ == t)
        }),
{
    let input = trim(line);
    if eq_ignore_ascii_case(input, "quit") {
        return InputAction::Quit;
    }
    if input.is_empty() {
        InputAction::Skip
    } else {
        InputAction::Send(String::from_str(input))
    }
}

} // verus!
