//! The boot loader's configuration, read from an ini file next to it.

use vstd::prelude::*;
use vstd::string::StrSliceExecFns;

use crate::ini_file::{lemma_parse_progress, parse_from, Input, KeyValue, Location, Parser};

verus! {

/// Bytes of the revision text the configuration keeps.
pub const MAX_REVISION_SIZE: usize = 64;

/// Where the boot log goes.
#[derive(Debug, Copy, Clone, PartialEq, Eq, Structural)]
pub enum LogDevice {
    Null,
    StdOut,
    Com1,
    Com2,
    /// A PL011 UART at this physical address.
    Pl011(u64),
}

/// How much the boot log says.
#[derive(Debug, Copy, Clone, PartialEq, Eq, Structural)]
pub enum LogLevel {
    Off,
    Error,
    Warn,
    Info,
    Debug,
    Trace,
}

/// What the configuration file can set.
#[derive(Debug, Copy, Clone, PartialEq, Eq)]
pub struct BootLoaderConfig {
    /// Git revision and some data about the latest change, padded with
    /// zeros.
    pub revision: [u8; 64],
    /// The target device for boot logging.
    pub log_device: LogDevice,
    /// Verbosity for logging.
    pub log_level: LogLevel,
    /// Log source line and path.
    pub log_source_path: bool,
    /// Wait at the entry point until `x9` or `r9` are set to `0`.
    pub wait_for_start: bool,
    /// Walk the page tables, and dump the page table entries.
    pub walk_page_tables: bool,
    /// Timeout in seconds for the UEFI watchdog.
    pub watchdog_seconds: Option<usize>,
}

/// A configuration as plain values.
pub struct ConfigView {
    pub revision: Seq<char>,
    pub log_device: LogDevice,
    pub log_level: LogLevel,
    pub log_source_path: bool,
    pub wait_for_start: bool,
    pub walk_page_tables: bool,
    pub watchdog_seconds: Option<usize>,
}

impl View for BootLoaderConfig {
    type V = ConfigView;

    open spec fn view(&self) -> ConfigView {
        ConfigView {
            revision: self.revision@.map_values(|b: u8| b as char),
            log_device: self.log_device,
            log_level: self.log_level,
            log_source_path: self.log_source_path,
            wait_for_start: self.wait_for_start,
            walk_page_tables: self.walk_page_tables,
            watchdog_seconds: self.watchdog_seconds,
        }
    }
}

/// The configuration without a file.
pub open spec fn default_config() -> ConfigView {
    ConfigView {
        revision: Seq::new(64, |i: int| 0u8 as char),
        log_device: LogDevice::StdOut,
        log_level: LogLevel::Trace,
        log_source_path: false,
        wait_for_start: false,
        walk_page_tables: false,
        watchdog_seconds: None,
    }
}

impl Default for BootLoaderConfig {
    fn default() -> (r: Self)
        ensures
            r@ == default_config(),
    {
        let r = Self {
            revision: [0; 64],
            log_device: LogDevice::StdOut,
            log_level: LogLevel::Trace,
            log_source_path: false,
            wait_for_start: false,
            walk_page_tables: false,
            watchdog_seconds: None,
        };
        assert(r.revision@.map_values(|b: u8| b as char) =~= Seq::new(64, |i: int| 0u8 as char));
        r
    }
}

impl BootLoaderConfig {
    /// The revision text: the bytes before the first zero.
    pub fn revision_bytes(&self) -> (r: &[u8])
        ensures
            r@ == self.revision@.take(r@.len() as int),
            forall|i: int| 0 <= i < r@.len() ==> #[trigger] r@[i] != 0,
            r@.len() < 64 ==> self.revision@[r@.len() as int] == 0,
    {
        let mut len: usize = 0;
        while len < MAX_REVISION_SIZE && self.revision[len] != 0
            invariant
                len <= 64,
                forall|i: int| 0 <= i < len ==> #[trigger] self.revision@[i] != 0,
            decreases 64 - len,
        {
            len += 1;
        }
        let r = vstd::slice::slice_subrange(self.revision.as_slice(), 0, len);
        assert(r@ =~= self.revision@.take(len as int));
        r
    }
}

/// The value of `c` as a digit of base `radix` (up to 36), if it is one.
pub open spec fn digit_value(c: char, radix: int) -> Option<int> {
    let d = if '0' <= c <= '9' {
        c as u32 - '0' as u32
    } else if 'a' <= c <= 'z' {
        c as u32 - 'a' as u32 + 10
    } else if 'A' <= c <= 'Z' {
        c as u32 - 'A' as u32 + 10
    } else {
        36
    };
    if d < radix {
        Some(d)
    } else {
        None
    }
}

/// The digits `s` in base `radix`, most significant first, if all are
/// digits.
pub open spec fn digits_value(s: Seq<char>, radix: int) -> Option<int>
    decreases s.len(),
{
    if s.len() == 0 {
        Some(0)
    } else {
        match (digits_value(s.drop_last(), radix), digit_value(s.last(), radix)) {
            (Some(high), Some(low)) => Some(high * radix + low),
            _ => None,
        }
    }
}

/// An unsigned number as Rust's integer parsing reads it: an optional `+`
/// and at least one digit of base `radix`, with a value at most `max`.
pub open spec fn parse_unsigned(s: Seq<char>, radix: int, max: int) -> Option<int> {
    let digits = if s.len() > 0 && s[0] == '+' {
        s.skip(1)
    } else {
        s
    };
    if digits.len() == 0 {
        None
    } else {
        match digits_value(digits, radix) {
            Some(v) => if v <= max {
                Some(v)
            } else {
                None
            },
            None => None,
        }
    }
}

/// A value that switches an option on.
pub open spec fn is_yes(v: Seq<char>) -> bool {
    v == "yes"@ || v == "on"@ || v == "1"@ || v == "true"@
}

/// The log device a `log_device` value names, if any; `pl011@` followed by
/// a hexadecimal address names that UART, and a bad address the console.
pub open spec fn log_device_of(v: Seq<char>) -> Option<LogDevice> {
    if v == "null"@ {
        Some(LogDevice::Null)
    } else if v == "com1"@ {
        Some(LogDevice::Com1)
    } else if v == "com2"@ {
        Some(LogDevice::Com2)
    } else if v == "stdout"@ {
        Some(LogDevice::StdOut)
    } else if v.len() >= 6 && v.take(6) == "pl011@"@ {
        match parse_unsigned(v.skip(6), 16, u64::MAX as int) {
            Some(a) => Some(LogDevice::Pl011(a as u64)),
            None => Some(LogDevice::StdOut),
        }
    } else {
        None
    }
}

/// The log level a `log_level` value names, if any.
pub open spec fn log_level_of(v: Seq<char>) -> Option<LogLevel> {
    if v == "info"@ {
        Some(LogLevel::Info)
    } else if v == "warn"@ {
        Some(LogLevel::Warn)
    } else if v == "error"@ {
        Some(LogLevel::Error)
    } else if v == "debug"@ {
        Some(LogLevel::Debug)
    } else if v == "trace"@ {
        Some(LogLevel::Trace)
    } else {
        None
    }
}

/// `revision` with its first bytes replaced by those of `v`, as many as
/// fit.
pub open spec fn with_revision(revision: Seq<char>, v: Seq<char>) -> Seq<char> {
    Seq::new(
        revision.len(),
        |i: int|
            if i < v.len() {
                v[i]
            } else {
                revision[i]
            },
    )
}

/// `c` after the setting `key = value`; unknown keys and values change
/// nothing.
pub open spec fn apply_setting(c: ConfigView, key: Seq<char>, value: Seq<char>) -> ConfigView {
    if key == "log_device"@ {
        match log_device_of(value) {
            Some(d) => ConfigView { log_device: d, ..c },
            None => c,
        }
    } else if key == "log_level"@ {
        match log_level_of(value) {
            Some(l) => ConfigView { log_level: l, ..c },
            None => c,
        }
    } else if key == "log_source_path"@ {
        ConfigView { log_source_path: is_yes(value), ..c }
    } else if key == "wait_for_start"@ {
        ConfigView { wait_for_start: is_yes(value), ..c }
    } else if key == "walk_page_tables"@ {
        ConfigView { walk_page_tables: is_yes(value), ..c }
    } else if key == "revision"@ {
        ConfigView { revision: with_revision(c.revision, value), ..c }
    } else if key == "watchdog_seconds"@ {
        match parse_unsigned(value, 10, usize::MAX as int) {
            Some(n) => ConfigView { watchdog_seconds: Some(n as usize), ..c },
            None => c,
        }
    } else {
        c
    }
}

/// The settings the parser reads from `input` one after the other, as
/// positions of key and value, and the places it starts each from; the
/// last place is where it ends or fails.
pub open spec fn is_settings_run<'a>(
    input: &'a [u8],
    settings: Seq<(int, int, int, int)>,
    places: Seq<Location>,
) -> bool {
    &&& places.len() == settings.len() + 1
    &&& places[0] == (Location { line: 1, col: 1, pos: 0 })
    &&& forall|i: int|
        0 <= i < settings.len() ==> #[trigger] parse_from(input, places[i]) == (
            Ok::<Option<(int, int, int, int)>, crate::ini_file::Error>(Some(settings[i])),
            places[i + 1],
        )
    &&& !(parse_from(input, places[settings.len() as int]).0 is Ok && parse_from(
        input,
        places[settings.len() as int],
    ).0->Ok_0 is Some)
}

/// The configuration after the first `n` settings, applied in order from
/// the defaults.
pub open spec fn config_after<'a>(
    input: &'a [u8],
    settings: Seq<(int, int, int, int)>,
    n: int,
) -> ConfigView
    decreases n,
{
    if n <= 0 {
        default_config()
    } else {
        let (ks, ke, vs, ve) = settings[n - 1];
        apply_setting(
            config_after(input, settings, n - 1),
            input.chars().subrange(ks, ke),
            input.chars().subrange(vs, ve),
        )
    }
}

proof fn lemma_digits_prefix(s: Seq<char>, radix: int, n: int)
    requires
        0 <= n <= s.len(),
        radix >= 1,
    ensures
        digits_value(s.take(n), radix) is None ==> digits_value(s, radix) is None,
        digits_value(s.take(n), radix) is Some && digits_value(s, radix) is Some ==> digits_value(
            s.take(n),
            radix,
        )->Some_0 <= digits_value(s, radix)->Some_0,
        digits_value(s, radix) is Some ==> digits_value(s, radix)->Some_0 >= 0,
    decreases s.len(),
{
    if n == s.len() {
        assert(s.take(n) =~= s);
        if s.len() > 0 {
            lemma_digits_prefix(s.drop_last(), radix, n - 1);
        }
    } else {
        lemma_digits_prefix(s.drop_last(), radix, n);
        assert(s.drop_last().take(n) =~= s.take(n));
        if digits_value(s, radix) is Some {
            let high = digits_value(s.drop_last(), radix)->Some_0;
            let low = digit_value(s.last(), radix)->Some_0;
            assert(high * radix + low >= high) by (nonlinear_arith)
                requires
                    high >= 0,
                    low >= 0,
                    radix >= 1,
            ;
        }
    }
}

proof fn lemma_parse_unsigned_bounds(s: Seq<char>, radix: int, max: int)
    requires
        radix >= 1,
    ensures
        parse_unsigned(s, radix, max) is Some ==> 0 <= parse_unsigned(s, radix, max)->Some_0 <= max,
{
    let digits = if s.len() > 0 && s[0] == '+' {
        s.skip(1)
    } else {
        s
    };
    lemma_digits_prefix(digits, radix, 0);
}

fn digit(c: char, radix: u64) -> (r: Option<u64>)
    requires
        2 <= radix <= 36,
    ensures
        r == match digit_value(c, radix as int) {
            Some(d) => Some(d as u64),
            None => None::<u64>,
        },
{
    let d: u32 = if '0' <= c && c <= '9' {
        c as u32 - '0' as u32
    } else if 'a' <= c && c <= 'z' {
        c as u32 - 'a' as u32 + 10
    } else if 'A' <= c && c <= 'Z' {
        c as u32 - 'A' as u32 + 10
    } else {
        36
    };
    if (d as u64) < radix {
        Some(d as u64)
    } else {
        None
    }
}

/// The unsigned number in base `radix` at `b[start..]`, as Rust's integer
/// parsing reads it, if it is one and at most `max`.
pub fn parse_number(b: &[u8], start: usize, radix: u64, max: u64) -> (r: Option<u64>)
    requires
        start <= b@.len(),
        2 <= radix <= 36,
    ensures
        r == match parse_unsigned(b.chars().skip(start as int), radix as int, max as int) {
            Some(v) => Some(v as u64),
            None => None::<u64>,
        },
        r is Some ==> r->Some_0 <= max,
{
    let ghost s = b.chars().skip(start as int);
    let len = b.len();
    let mut i = start;
    if i < len && b[i] as char == '+' {
        i += 1;
    }
    let first = i;
    let ghost digits = b.chars().subrange(first as int, len as int);
    assert(digits =~= if s.len() > 0 && s[0] == '+' {
        s.skip(1)
    } else {
        s
    });
    if i >= len {
        return None;
    }
    let mut acc: u64 = 0;
    assert(digits.take(0) =~= Seq::<char>::empty());
    while i < len
        invariant
            first <= i <= len,
            len == b@.len(),
            first < len,
            digits == b.chars().subrange(first as int, len as int),
            s == b.chars().skip(start as int),
            digits == (if s.len() > 0 && s[0] == '+' {
                s.skip(1)
            } else {
                s
            }),
            digits.len() > 0,
            2 <= radix <= 36,
            digits_value(digits.take(i - first), radix as int) == Some(acc as int),
            acc <= max,
        decreases len - i,
    {
        let ghost n = i - first;
        assert(digits.take(n + 1).drop_last() =~= digits.take(n));
        assert(digits.take(n + 1).last() == b@[i as int] as char);
        match digit(b[i] as char, radix) {
            None => {
                proof {
                    lemma_digits_prefix(digits, radix as int, n + 1);
                }
                return None;
            },
            Some(d) => {
                if d > max || acc > (max - d) / radix {
                    proof {
                        if d <= max {
                            assert(acc * radix + d > max) by (nonlinear_arith)
                                requires
                                    acc > (max - d) as int / radix as int,
                                    radix >= 2,
                                    d <= max,
                            ;
                        }
                        assert(acc * radix + d >= d) by (nonlinear_arith)
                            requires
                                acc >= 0,
                                radix >= 2,
                        ;
                        lemma_digits_prefix(digits, radix as int, n + 1);
                    }
                    return None;
                }
                proof {
                    assert(acc * radix + d <= max) by (nonlinear_arith)
                        requires
                            acc <= (max - d) as int / radix as int,
                            radix >= 2,
                            d <= max,
                    ;
                }
                acc = acc * radix + d;
            },
        }
        i += 1;
    }
    assert(digits.take((len - first) as int) =~= digits);
    Some(acc)
}

/// `b`, read as ASCII, is `s`.
fn eq_ascii(b: &[u8], s: &str) -> (r: bool)
    ensures
        r == (b.chars() == s@),
{
    let n = s.unicode_len();
    if b.len() != n {
        return false;
    }
    let mut i: usize = 0;
    while i < n
        invariant
            i <= n,
            n == s@.len(),
            b@.len() == n,
            forall|j: int| 0 <= j < i ==> b.chars()[j] == s@[j],
        decreases n - i,
    {
        if b[i] as char != s.get_char(i) {
            return false;
        }
        i += 1;
    }
    assert(b.chars() =~= s@);
    true
}

/// `b`, read as ASCII, starts with `s`.
fn starts_with_ascii(b: &[u8], s: &str) -> (r: bool)
    ensures
        r == (b.chars().len() >= s@.len() && b.chars().take(s@.len() as int) == s@),
{
    let n = s.unicode_len();
    if b.len() < n {
        return false;
    }
    let mut i: usize = 0;
    while i < n
        invariant
            i <= n,
            n == s@.len(),
            b@.len() >= n,
            forall|j: int| 0 <= j < i ==> b.chars()[j] == s@[j],
        decreases n - i,
    {
        if b[i] as char != s.get_char(i) {
            assert(b.chars().take(n as int)[i as int] != s@[i as int]);
            return false;
        }
        i += 1;
    }
    assert(b.chars().take(n as int) =~= s@);
    true
}

fn switched_on(value: &[u8]) -> (r: bool)
    ensures
        r == is_yes(value.chars()),
{
    eq_ascii(value, "yes") || eq_ascii(value, "on") || eq_ascii(value, "1") || eq_ascii(value, "true")
}

/// Applies the setting `key = value`.
fn apply_setting_to(config: &mut BootLoaderConfig, key: &[u8], value: &[u8])
    ensures
        final(config)@ == apply_setting(old(config)@, key.chars(), value.chars()),
{
    proof {
        reveal_strlit("pl011@");
    }
    if eq_ascii(key, "log_device") {
        if eq_ascii(value, "null") {
            config.log_device = LogDevice::Null;
        } else if eq_ascii(value, "com1") {
            config.log_device = LogDevice::Com1;
        } else if eq_ascii(value, "com2") {
            config.log_device = LogDevice::Com2;
        } else if eq_ascii(value, "stdout") {
            config.log_device = LogDevice::StdOut;
        } else if starts_with_ascii(value, "pl011@") {
            match parse_number(value, 6, 16, u64::MAX) {
                Some(base_addr) => config.log_device = LogDevice::Pl011(base_addr),
                None => config.log_device = LogDevice::StdOut,
            }
        }
    } else if eq_ascii(key, "log_level") {
        if eq_ascii(value, "info") {
            config.log_level = LogLevel::Info;
        } else if eq_ascii(value, "warn") {
            config.log_level = LogLevel::Warn;
        } else if eq_ascii(value, "error") {
            config.log_level = LogLevel::Error;
        } else if eq_ascii(value, "debug") {
            config.log_level = LogLevel::Debug;
        } else if eq_ascii(value, "trace") {
            config.log_level = LogLevel::Trace;
        }
    } else if eq_ascii(key, "log_source_path") {
        config.log_source_path = switched_on(value);
    } else if eq_ascii(key, "wait_for_start") {
        config.wait_for_start = switched_on(value);
    } else if eq_ascii(key, "walk_page_tables") {
        config.walk_page_tables = switched_on(value);
    } else if eq_ascii(key, "revision") {
        let len = if value.len() < MAX_REVISION_SIZE {
            value.len()
        } else {
            MAX_REVISION_SIZE
        };
        let ghost before = *config;
        let mut i: usize = 0;
        while i < len
            invariant
                i <= len,
                len <= value@.len(),
                len <= 64,
                config.log_device == before.log_device,
                config.log_level == before.log_level,
                config.log_source_path == before.log_source_path,
                config.wait_for_start == before.wait_for_start,
                config.walk_page_tables == before.walk_page_tables,
                config.watchdog_seconds == before.watchdog_seconds,
                forall|j: int| 0 <= j < i ==> config.revision[j] == value@[j],
                forall|j: int| i <= j < 64 ==> config.revision[j] == before.revision[j],
            decreases len - i,
        {
            config.revision[i] = value[i];
            i += 1;
        }
        assert(config.revision@.map_values(|b: u8| b as char) =~= with_revision(
            before.revision@.map_values(|b: u8| b as char),
            value.chars(),
        ));
    } else if eq_ascii(key, "watchdog_seconds") {
        let max = usize::MAX as u64;
        assert(max as int == usize::MAX as int);
        let parsed = parse_number(value, 0, 10, max);
        assert(value.chars().skip(0) =~= value.chars());
        let ghost v = parse_unsigned(value.chars(), 10, usize::MAX as int);
        proof {
            lemma_parse_unsigned_bounds(value.chars(), 10, usize::MAX as int);
        }
        if let Some(watchdog_seconds) = parsed {
            assert(v is Some && 0 <= v->Some_0 <= usize::MAX);
            assert(watchdog_seconds as int == v->Some_0);
            config.watchdog_seconds = Some(watchdog_seconds as usize);
        }
    }
}

/// Reads the configuration from the contents of the configuration file:
/// the defaults, changed by each setting the file holds, in order, up to
/// its end or to the first thing that is not a setting.
pub fn parse_config(bytes: &[u8]) -> (r: Option<BootLoaderConfig>)
    requires
        bytes@.len() < usize::MAX,
    ensures
        r is Some,
        exists|settings: Seq<(int, int, int, int)>, places: Seq<Location>|
            is_settings_run(bytes, settings, places) && r->Some_0@ == config_after(
                bytes,
                settings,
                settings.len() as int,
            ),
{
    let mut config = BootLoaderConfig::default();
    let mut parser = Parser::new(bytes);
    let ghost start = Location { line: 1, col: 1, pos: 0 };
    let ghost mut settings: Seq<(int, int, int, int)> = Seq::empty();
    let ghost mut places: Seq<Location> = seq![start];
    let mut done = false;
    while !done
        invariant
            parser.wf(),
            parser.spec_input() == bytes,
            bytes@.len() < usize::MAX,
            places.len() == settings.len() + 1,
            places[0] == start,
            !done ==> parser.spec_location() == places.last(),
            parser.spec_location().pos <= bytes.chars().len(),
            places.last().pos <= bytes.chars().len(),
            forall|i: int|
                0 <= i < settings.len() ==> #[trigger] parse_from(bytes, places[i]) == (
                    Ok::<Option<(int, int, int, int)>, crate::ini_file::Error>(Some(settings[i])),
                    places[i + 1],
                ),
            done ==> !(parse_from(bytes, places.last()).0 is Ok && parse_from(
                bytes,
                places.last(),
            ).0->Ok_0 is Some),
            config@ == config_after(bytes, settings, settings.len() as int),
        decreases bytes@.len() - places.last().pos + if done {
            0int
        } else {
            1int
        },
    {
        let ghost at = parser.spec_location();
        proof {
            lemma_parse_progress(bytes, at);
        }
        let ghost before = config@;
        match parser.parse() {
            Ok(Some(KeyValue { key, value })) => {
                let ghost step = parse_from(bytes, at).0->Ok_0->Some_0;
                assert(parse_from(bytes, at).0 == Ok::<
                    Option<(int, int, int, int)>,
                    crate::ini_file::Error,
                >(Some(step)));
                apply_setting_to(&mut config, key, value);
                proof {
                    let old_settings = settings;
                    let old_places = places;
                    settings = settings.push(step);
                    places = places.push(parser.spec_location());
                    assert(settings.drop_last() =~= old_settings);
                    lemma_config_after_prefix(bytes, settings, settings.len() - 1);
                    assert forall|i: int| 0 <= i < settings.len() implies #[trigger] parse_from(
                        bytes,
                        places[i],
                    ) == (
                        Ok::<Option<(int, int, int, int)>, crate::ini_file::Error>(
                            Some(settings[i]),
                        ),
                        places[i + 1],
                    ) by {
                        if i < old_settings.len() {
                            assert(places[i] == old_places[i]);
                            assert(places[i + 1] == old_places[i + 1]);
                        }
                    }
                }
            },
            _ => {
                done = true;
            },
        }
    }
    assert(is_settings_run(bytes, settings, places));
    Some(config)
}

proof fn lemma_config_after_prefix<'a>(
    input: &'a [u8],
    settings: Seq<(int, int, int, int)>,
    n: int,
)
    requires
        0 <= n < settings.len(),
    ensures
        config_after(input, settings, n) == config_after(input, settings.drop_last(), n),
    decreases n,
{
    if n > 0 {
        lemma_config_after_prefix(input, settings, n - 1);
    }
}

} // verus!
