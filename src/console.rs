use vstd::prelude::*;

use crate::debug::{ArgError, Command};
use vstd::string::StringSliceAdditionalSpecFns;

verus! {

/// The value of a hexadecimal digit, either case.
pub open spec fn hex_digit(b: u8) -> Option<int> {
    if 0x30 <= b <= 0x39 {
        Some(b - 0x30)
    } else if 0x61 <= b <= 0x66 {
        Some(b - 0x61 + 10)
    } else if 0x41 <= b <= 0x46 {
        Some(b - 0x41 + 10)
    } else {
        None
    }
}

pub open spec fn all_hex(s: Seq<u8>) -> bool {
    forall|i: int| 0 <= i < s.len() ==> #[trigger] hex_digit(s[i]) is Some
}

/// The value of a string of hexadecimal digits.
pub open spec fn hex_value(s: Seq<u8>) -> int
    decreases s.len(),
{
    if s.len() == 0 {
        0
    } else {
        hex_value(s.drop_last()) * 16 + hex_digit(s.last())->Some_0
    }
}

/// The digits of an address argument: an optional leading '+' dropped.
pub open spec fn hex_digits_of(s: Seq<u8>) -> Seq<u8> {
    if s.len() > 0 && s[0] == 0x2B {
        s.drop_first()
    } else {
        s
    }
}

/// An address argument: hexadecimal digits, optionally after '+', whose value
/// fits in 16 bits.
pub open spec fn hex_arg(s: Seq<u8>) -> Result<u16, ArgError> {
    let d = hex_digits_of(s);
    if d.len() > 0 && all_hex(d) && hex_value(d) <= 0xFFFF {
        Ok(hex_value(d) as u16)
    } else {
        Err(ArgError::NotHex)
    }
}

fn digit_value(b: u8) -> (r: Option<u8>)
    ensures
        match hex_digit(b) {
            Some(v) => r == Some(v as u8),
            None => r is None,
        },
{
    if 0x30 <= b && b <= 0x39 {
        Some(b - 0x30)
    } else if 0x61 <= b && b <= 0x66 {
        Some(b - 0x61 + 10)
    } else if 0x41 <= b && b <= 0x46 {
        Some(b - 0x41 + 10)
    } else {
        None
    }
}

/// Reads an unprefixed hexadecimal address, as `u16::from_str_radix` with
/// radix 16 reads it.
pub fn parse_hex_u16(word: &[u8]) -> (r: Result<u16, ArgError>)
    ensures
        r == hex_arg(word@),
{
    let r = hex_in(word, 0, word.len());
    assert(word@.subrange(0, word@.len() as int) =~= word@);
    r
}

/// Reads the address argument held in `s[from..to]`.
fn hex_in(s: &[u8], from: usize, to: usize) -> (r: Result<u16, ArgError>)
    requires
        from <= to <= s@.len(),
    ensures
        r == hex_arg(s@.subrange(from as int, to as int)),
{
    let ghost w = s@.subrange(from as int, to as int);
    let mut start: usize = from;
    if from < to && s[from] == 0x2B {
        start = from + 1;
    }
    let ghost d = hex_digits_of(w);
    assert(d =~= s@.subrange(start as int, to as int));
    if start >= to {
        return Err(ArgError::NotHex);
    }
    let mut acc: u32 = 0;
    let mut i: usize = start;
    while i < to
        invariant
            start <= i <= to <= s@.len(),
            w == s@.subrange(from as int, to as int),
            d == hex_digits_of(w),
            d =~= s@.subrange(start as int, to as int),
            all_hex(d.subrange(0, i - start)),
            acc as int == if hex_value(d.subrange(0, i - start)) < 0x10000 {
                hex_value(d.subrange(0, i - start))
            } else {
                0x10000
            },
        decreases to - i,
    {
        let v = match digit_value(s[i]) {
            Some(v) => v,
            None => {
                assert(d[i - start] == s@[i as int]);
                assert(hex_digit(d[i - start]) is None);
                assert(!all_hex(d));
                return Err(ArgError::NotHex);
            },
        };
        let ghost prev = d.subrange(0, i - start);
        let ghost next = d.subrange(0, i + 1 - start);
        assert(next.drop_last() =~= prev);
        assert(next.last() == s@[i as int]);
        let sum: u32 = acc * 16 + v as u32;
        acc = if sum > 0x10000 {
            0x10000
        } else {
            sum
        };
        i = i + 1;
        assert forall|k: int| 0 <= k < next.len() implies #[trigger] hex_digit(next[k]) is Some by {
            if k < prev.len() {
                assert(next[k] == prev[k]);
            }
        }
    }
    assert(d.subrange(0, i - start) =~= d);
    if acc > 0xFFFF {
        Err(ArgError::NotHex)
    } else {
        Ok(acc as u16)
    }
}

/// ASCII letters lowered; other bytes kept.
pub open spec fn lower_byte(b: u8) -> u8 {
    if 0x41 <= b <= 0x5A {
        (b + 0x20) as u8
    } else {
        b
    }
}

pub open spec fn is_space(b: u8) -> bool {
    b == 0x20 || b == 0x09 || b == 0x0A || b == 0x0D || b == 0x0C || b == 0x0B
}

/// The bytes of a word: up to the first space.
pub open spec fn word_end(s: Seq<u8>, start: int) -> int
    decreases s.len() - start,
{
    if start >= s.len() || s[start] == 0x20 {
        start
    } else {
        word_end(s, start + 1)
    }
}

/// The end of the word that starts at `start`.
fn find_word_end(s: &Vec<u8>, start: usize, end: usize) -> (r: usize)
    requires
        start <= end <= s@.len(),
    ensures
        r == word_end(s@.subrange(0, end as int), start as int),
        start <= r <= end,
{
    let ghost t = s@.subrange(0, end as int);
    let mut i = start;
    while i < end && s[i] != 0x20
        invariant
            start <= i <= end <= s@.len(),
            t == s@.subrange(0, end as int),
            word_end(t, start as int) == word_end(t, i as int),
        decreases end - i,
    {
        assert(t[i as int] == s@[i as int]);
        i = i + 1;
    }
    if i < end {
        assert(t[i as int] == s@[i as int]);
    }
    i
}

/// The bytes with ASCII letters lowered.
pub open spec fn lower_seq(s: Seq<u8>) -> Seq<u8> {
    s.map_values(|b: u8| lower_byte(b))
}

/// The first position from `i` on that is not white space.
pub open spec fn trim_start_index(s: Seq<u8>, i: int) -> int
    decreases s.len() - i,
{
    if 0 <= i < s.len() && is_space(s[i]) {
        trim_start_index(s, i + 1)
    } else {
        i
    }
}

/// The end of `s[lo..j]` with trailing white space left off.
pub open spec fn trim_end_index(s: Seq<u8>, lo: int, j: int) -> int
    decreases j - lo,
{
    if lo < j <= s.len() && is_space(s[j - 1]) {
        trim_end_index(s, lo, j - 1)
    } else {
        j
    }
}

/// Where the trimmed line starts and ends, and where its first word ends.
pub open spec fn line_bounds(s: Seq<u8>) -> (int, int, int) {
    let lo = trim_start_index(s, 0);
    let hi = trim_end_index(s, lo, s.len() as int);
    (lo, hi, word_end(s.subrange(0, hi), lo))
}

/// The first word of the trimmed line.
pub open spec fn verb_of(s: Seq<u8>) -> Seq<u8> {
    s.subrange(line_bounds(s).0, line_bounds(s).2)
}

/// The address argument: the second word, or missing when there is none.
pub open spec fn command_arg(s: Seq<u8>) -> Result<u16, ArgError> {
    let (lo, hi, e) = line_bounds(s);
    if e >= hi {
        Err(ArgError::Missing)
    } else {
        hex_arg(s.subrange(e + 1, word_end(s.subrange(0, hi), e + 1)))
    }
}

/// Whether `v` is a verb or its shorthand.
pub open spec fn names(v: Seq<u8>, short: &str, long: &str) -> bool {
    v == short.spec_bytes() || v == long.spec_bytes()
}

pub open spec fn known_verb(v: Seq<u8>) -> bool {
    names(v, "p", "pause") || names(v, "g", "go") || names(v, "gt", "go_to") || names(v, "s", "status")
        || names(v, "gs", "graphics_status") || names(v, "n", "next") || names(v, "ns", "next_status")
        || names(v, "r", "read") || names(v, "b", "break") || names(v, "bc", "break_clear") || names(
        v,
        "w",
        "watch",
    ) || names(v, "wc", "watch_clear") || names(v, "q", "quit") || names(v, "j", "jumps") || names(
        v,
        "jc",
        "jumps_clear",
    ) || names(v, "h", "help")
}

fn bytes_eq(a: &Vec<u8>, from: usize, to: usize, b: &[u8]) -> (r: bool)
    requires
        from <= to <= a@.len(),
    ensures
        r == (a@.subrange(from as int, to as int) == b@),
{
    if to - from != b.len() {
        return false;
    }
    let mut i: usize = 0;
    while i < b.len()
        invariant
            to - from == b@.len(),
            from <= to <= a@.len(),
            i <= b@.len(),
            forall|k: int| 0 <= k < i ==> a@[from + k] == b@[k],
        decreases b@.len() - i,
    {
        if a[from + i] != b[i] {
            assert(a@.subrange(from as int, to as int)[i as int] != b@[i as int]);
            return false;
        }
        i = i + 1;
    }
    assert(a@.subrange(from as int, to as int) =~= b@);
    true
}

/// The addresses of the words of `s[..hi]` from position `pos` on, up to the
/// first word that is not an address.
pub open spec fn addresses_from(s: Seq<u8>, hi: int, pos: int) -> Seq<u16>
    decreases hi - pos,
{
    let e = word_end(s.subrange(0, hi), pos);
    if pos > hi || e < pos {
        Seq::empty()
    } else {
        match hex_arg(s.subrange(pos, e)) {
            Err(_) => Seq::empty(),
            Ok(a) => if e < hi {
                seq![a] + addresses_from(s, hi, e + 1)
            } else {
                seq![a]
            },
        }
    }
}

/// The address arguments from `start` on, up to the first that is not one.
fn parse_addresses(lowered: &Vec<u8>, start: usize, end: usize, any: bool) -> (r: Vec<u16>)
    requires
        start <= end <= lowered@.len(),
    ensures
        r@ == if any {
            addresses_from(lowered@, end as int, start as int)
        } else {
            Seq::<u16>::empty()
        },
{
    let mut addrs: Vec<u16> = Vec::new();
    let mut pos = start;
    let mut more = any;
    let ghost target = if any {
        addresses_from(lowered@, end as int, start as int)
    } else {
        Seq::<u16>::empty()
    };
    while more
        invariant
            pos <= end <= lowered@.len(),
            target == (if any {
                addresses_from(lowered@, end as int, start as int)
            } else {
                Seq::<u16>::empty()
            }),
            more ==> target == addrs@ + addresses_from(lowered@, end as int, pos as int),
            !more ==> target == addrs@,
        decreases end - pos + if more { 1int } else { 0 },
    {
        let w_end = find_word_end(lowered, pos, end);
        let ghost rest = addresses_from(lowered@, end as int, pos as int);
        let ghost before = addrs@;
        match hex_in(lowered.as_slice(), pos, w_end) {
            Ok(a) => {
                addrs.push(a);
                proof {
                    if w_end < end {
                        assert(rest == seq![a] + addresses_from(lowered@, end as int, w_end + 1));
                        assert(addrs@ + addresses_from(lowered@, end as int, w_end + 1) =~= before + rest);
                    } else {
                        assert(rest == seq![a]);
                        assert(addrs@ =~= before + rest);
                    }
                }
            },
            Err(_) => {
                more = false;
                assert(rest == Seq::<u16>::empty());
                assert(addrs@ =~= before + rest);
            },
        }
        if more {
            if w_end < end {
                pos = w_end + 1;
            } else {
                pos = end;
                more = false;
            }
        }
    }
    addrs
}

/// Parses one line of debugger input: lower-cased, trimmed, split at single
/// spaces; the first word names the command and the next ones are its
/// hexadecimal address arguments.
pub fn parse_command(line: &str) -> (r: Command)
    ensures
        ({
            let s = lower_seq(line.spec_bytes());
            let v = verb_of(s);
            let a = command_arg(s);
            &&& names(v, "p", "pause") ==> r is Pause
            &&& names(v, "g", "go") ==> r is Go
            &&& names(v, "gt", "go_to") ==> r == Command::GoTo(a)
            &&& names(v, "s", "status") ==> r is Status
            &&& names(v, "gs", "graphics_status") ==> r is GraphicsStatus
            &&& names(v, "n", "next") ==> r is Next
            &&& names(v, "ns", "next_status") ==> r is NextStatus
            &&& names(v, "r", "read") ==> r == Command::Read(a)
            &&& names(v, "b", "break") ==> r == Command::Break(a)
            &&& names(v, "bc", "break_clear") ==> r is BreakClear
            &&& names(v, "w", "watch") ==> r == Command::Watch(a)
            &&& names(v, "wc", "watch_clear") ==> r is WatchClear
            &&& names(v, "q", "quit") ==> r is Quit
            &&& names(v, "j", "jumps") ==> (r matches Command::Jumps(addrs) && addrs@ == (if line_bounds(
                s,
            ).2 < line_bounds(s).1 {
                addresses_from(s, line_bounds(s).1, line_bounds(s).2 + 1)
            } else {
                Seq::<u16>::empty()
            }))
            &&& names(v, "jc", "jumps_clear") ==> r is JumpsClear
            &&& names(v, "h", "help") ==> r is Help
            &&& !known_verb(v) ==> r is Unknown
        }),
{
    let bytes = line.as_bytes();
    let mut lowered: Vec<u8> = Vec::new();
    let mut i: usize = 0;
    while i < bytes.len()
        invariant
            i <= bytes@.len(),
            lowered@.len() == i,
            forall|k: int| 0 <= k < i ==> lowered@[k] == lower_byte(#[trigger] bytes@[k]),
        decreases bytes@.len() - i,
    {
        let b = bytes[i];
        lowered.push(if 0x41 <= b && b <= 0x5A { b + 0x20 } else { b });
        i = i + 1;
    }
    let ghost s = lowered@;
    assert(s =~= lower_seq(line.spec_bytes()));
    let mut start: usize = 0;
    let end0: usize = lowered.len();
    while start < end0 && (lowered[start] == 0x20 || lowered[start] == 0x09 || lowered[start] == 0x0A
        || lowered[start] == 0x0D || lowered[start] == 0x0C || lowered[start] == 0x0B)
        invariant
            start <= end0 == lowered@.len(),
            s == lowered@,
            s == lower_seq(line.spec_bytes()),
            trim_start_index(s, 0) == trim_start_index(s, start as int),
        decreases end0 - start,
    {
        start = start + 1;
    }
    let mut end: usize = end0;
    while end > start && (lowered[end - 1] == 0x20 || lowered[end - 1] == 0x09 || lowered[end - 1]
        == 0x0A || lowered[end - 1] == 0x0D || lowered[end - 1] == 0x0C || lowered[end - 1] == 0x0B)
        invariant
            start <= end <= lowered@.len(),
            s == lowered@,
            s == lower_seq(line.spec_bytes()),
            trim_end_index(s, start as int, s.len() as int) == trim_end_index(s, start as int, end as int),
        decreases end - start,
    {
        end = end - 1;
    }
    let verb_end = find_word_end(&lowered, start, end);
    let arg_start = if verb_end < end {
        verb_end + 1
    } else {
        end
    };
    let arg_end = find_word_end(&lowered, arg_start, end);
    assert(line_bounds(s) == (start as int, end as int, verb_end as int));
    let arg = if verb_end >= end {
        Err(ArgError::Missing)
    } else {
        hex_in(lowered.as_slice(), arg_start, arg_end)
    };
    proof {
        broadcast use vstd::string::is_ascii_spec_bytes;

        reveal_strlit("p");
        assert(vstd::string::is_ascii("p"));
        assert("p".spec_bytes() =~= seq![0x70u8]);
        reveal_strlit("pause");
        assert(vstd::string::is_ascii("pause"));
        assert("pause".spec_bytes() =~= seq![0x70u8, 0x61u8, 0x75u8, 0x73u8, 0x65u8]);
        reveal_strlit("g");
        assert(vstd::string::is_ascii("g"));
        assert("g".spec_bytes() =~= seq![0x67u8]);
        reveal_strlit("go");
        assert(vstd::string::is_ascii("go"));
        assert("go".spec_bytes() =~= seq![0x67u8, 0x6fu8]);
        reveal_strlit("gt");
        assert(vstd::string::is_ascii("gt"));
        assert("gt".spec_bytes() =~= seq![0x67u8, 0x74u8]);
        reveal_strlit("go_to");
        assert(vstd::string::is_ascii("go_to"));
        assert("go_to".spec_bytes() =~= seq![0x67u8, 0x6fu8, 0x5fu8, 0x74u8, 0x6fu8]);
        reveal_strlit("s");
        assert(vstd::string::is_ascii("s"));
        assert("s".spec_bytes() =~= seq![0x73u8]);
        reveal_strlit("status");
        assert(vstd::string::is_ascii("status"));
        assert("status".spec_bytes() =~= seq![0x73u8, 0x74u8, 0x61u8, 0x74u8, 0x75u8, 0x73u8]);
        reveal_strlit("gs");
        assert(vstd::string::is_ascii("gs"));
        assert("gs".spec_bytes() =~= seq![0x67u8, 0x73u8]);
        reveal_strlit("graphics_status");
        assert(vstd::string::is_ascii("graphics_status"));
        assert("graphics_status".spec_bytes() =~= seq![0x67u8, 0x72u8, 0x61u8, 0x70u8, 0x68u8, 0x69u8, 0x63u8, 0x73u8, 0x5fu8, 0x73u8, 0x74u8, 0x61u8, 0x74u8, 0x75u8, 0x73u8]);
        reveal_strlit("n");
        assert(vstd::string::is_ascii("n"));
        assert("n".spec_bytes() =~= seq![0x6eu8]);
        reveal_strlit("next");
        assert(vstd::string::is_ascii("next"));
        assert("next".spec_bytes() =~= seq![0x6eu8, 0x65u8, 0x78u8, 0x74u8]);
        reveal_strlit("ns");
        assert(vstd::string::is_ascii("ns"));
        assert("ns".spec_bytes() =~= seq![0x6eu8, 0x73u8]);
        reveal_strlit("next_status");
        assert(vstd::string::is_ascii("next_status"));
        assert("next_status".spec_bytes() =~= seq![0x6eu8, 0x65u8, 0x78u8, 0x74u8, 0x5fu8, 0x73u8, 0x74u8, 0x61u8, 0x74u8, 0x75u8, 0x73u8]);
        reveal_strlit("r");
        assert(vstd::string::is_ascii("r"));
        assert("r".spec_bytes() =~= seq![0x72u8]);
        reveal_strlit("read");
        assert(vstd::string::is_ascii("read"));
        assert("read".spec_bytes() =~= seq![0x72u8, 0x65u8, 0x61u8, 0x64u8]);
        reveal_strlit("b");
        assert(vstd::string::is_ascii("b"));
        assert("b".spec_bytes() =~= seq![0x62u8]);
        reveal_strlit("break");
        assert(vstd::string::is_ascii("break"));
        assert("break".spec_bytes() =~= seq![0x62u8, 0x72u8, 0x65u8, 0x61u8, 0x6bu8]);
        reveal_strlit("bc");
        assert(vstd::string::is_ascii("bc"));
        assert("bc".spec_bytes() =~= seq![0x62u8, 0x63u8]);
        reveal_strlit("break_clear");
        assert(vstd::string::is_ascii("break_clear"));
        assert("break_clear".spec_bytes() =~= seq![0x62u8, 0x72u8, 0x65u8, 0x61u8, 0x6bu8, 0x5fu8, 0x63u8, 0x6cu8, 0x65u8, 0x61u8, 0x72u8]);
        reveal_strlit("w");
        assert(vstd::string::is_ascii("w"));
        assert("w".spec_bytes() =~= seq![0x77u8]);
        reveal_strlit("watch");
        assert(vstd::string::is_ascii("watch"));
        assert("watch".spec_bytes() =~= seq![0x77u8, 0x61u8, 0x74u8, 0x63u8, 0x68u8]);
        reveal_strlit("wc");
        assert(vstd::string::is_ascii("wc"));
        assert("wc".spec_bytes() =~= seq![0x77u8, 0x63u8]);
        reveal_strlit("watch_clear");
        assert(vstd::string::is_ascii("watch_clear"));
        assert("watch_clear".spec_bytes() =~= seq![0x77u8, 0x61u8, 0x74u8, 0x63u8, 0x68u8, 0x5fu8, 0x63u8, 0x6cu8, 0x65u8, 0x61u8, 0x72u8]);
        reveal_strlit("q");
        assert(vstd::string::is_ascii("q"));
        assert("q".spec_bytes() =~= seq![0x71u8]);
        reveal_strlit("quit");
        assert(vstd::string::is_ascii("quit"));
        assert("quit".spec_bytes() =~= seq![0x71u8, 0x75u8, 0x69u8, 0x74u8]);
        reveal_strlit("j");
        assert(vstd::string::is_ascii("j"));
        assert("j".spec_bytes() =~= seq![0x6au8]);
        reveal_strlit("jumps");
        assert(vstd::string::is_ascii("jumps"));
        assert("jumps".spec_bytes() =~= seq![0x6au8, 0x75u8, 0x6du8, 0x70u8, 0x73u8]);
        reveal_strlit("jc");
        assert(vstd::string::is_ascii("jc"));
        assert("jc".spec_bytes() =~= seq![0x6au8, 0x63u8]);
        reveal_strlit("jumps_clear");
        assert(vstd::string::is_ascii("jumps_clear"));
        assert("jumps_clear".spec_bytes() =~= seq![0x6au8, 0x75u8, 0x6du8, 0x70u8, 0x73u8, 0x5fu8, 0x63u8, 0x6cu8, 0x65u8, 0x61u8, 0x72u8]);
        reveal_strlit("h");
        assert(vstd::string::is_ascii("h"));
        assert("h".spec_bytes() =~= seq![0x68u8]);
        reveal_strlit("help");
        assert(vstd::string::is_ascii("help"));
        assert("help".spec_bytes() =~= seq![0x68u8, 0x65u8, 0x6cu8, 0x70u8]);
    }
    assert(verb_of(s) == lowered@.subrange(start as int, verb_end as int));
    assert(command_arg(s) == arg);
    if bytes_eq(&lowered, start, verb_end, "p".as_bytes()) || bytes_eq(&lowered, start, verb_end, "pause".as_bytes()) {
        Command::Pause
    } else if bytes_eq(&lowered, start, verb_end, "g".as_bytes()) || bytes_eq(&lowered, start, verb_end, "go".as_bytes()) {
        Command::Go
    } else if bytes_eq(&lowered, start, verb_end, "gt".as_bytes()) || bytes_eq(&lowered, start, verb_end, "go_to".as_bytes()) {
        Command::GoTo(arg)
    } else if bytes_eq(&lowered, start, verb_end, "s".as_bytes()) || bytes_eq(&lowered, start, verb_end, "status".as_bytes()) {
        Command::Status
    } else if bytes_eq(&lowered, start, verb_end, "gs".as_bytes()) || bytes_eq(&lowered, start, verb_end, "graphics_status".as_bytes()) {
        Command::GraphicsStatus
    } else if bytes_eq(&lowered, start, verb_end, "n".as_bytes()) || bytes_eq(&lowered, start, verb_end, "next".as_bytes()) {
        Command::Next
    } else if bytes_eq(&lowered, start, verb_end, "ns".as_bytes()) || bytes_eq(&lowered, start, verb_end, "next_status".as_bytes()) {
        Command::NextStatus
    } else if bytes_eq(&lowered, start, verb_end, "r".as_bytes()) || bytes_eq(&lowered, start, verb_end, "read".as_bytes()) {
        Command::Read(arg)
    } else if bytes_eq(&lowered, start, verb_end, "b".as_bytes()) || bytes_eq(&lowered, start, verb_end, "break".as_bytes()) {
        Command::Break(arg)
    } else if bytes_eq(&lowered, start, verb_end, "bc".as_bytes()) || bytes_eq(&lowered, start, verb_end, "break_clear".as_bytes()) {
        Command::BreakClear
    } else if bytes_eq(&lowered, start, verb_end, "w".as_bytes()) || bytes_eq(&lowered, start, verb_end, "watch".as_bytes()) {
        Command::Watch(arg)
    } else if bytes_eq(&lowered, start, verb_end, "wc".as_bytes()) || bytes_eq(&lowered, start, verb_end, "watch_clear".as_bytes()) {
        Command::WatchClear
    } else if bytes_eq(&lowered, start, verb_end, "q".as_bytes()) || bytes_eq(&lowered, start, verb_end, "quit".as_bytes()) {
        Command::Quit
    } else if bytes_eq(&lowered, start, verb_end, "j".as_bytes()) || bytes_eq(&lowered, start, verb_end, "jumps".as_bytes()) {
        Command::Jumps(parse_addresses(&lowered, arg_start, end, verb_end < end))
    } else if bytes_eq(&lowered, start, verb_end, "jc".as_bytes()) || bytes_eq(&lowered, start, verb_end, "jumps_clear".as_bytes()) {
        Command::JumpsClear
    } else if bytes_eq(&lowered, start, verb_end, "h".as_bytes()) || bytes_eq(&lowered, start, verb_end, "help".as_bytes()) {
        Command::Help
    } else {
        Command::Unknown
    }
}

} // verus!
