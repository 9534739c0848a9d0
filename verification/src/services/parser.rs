//! Reading the text that the telemetry commands print.

use vstd::prelude::*;
use vstd::pervasive::VecAdditionalExecFns;
use crate::models::hardware::{
    InterfaceModel, MemoryInfo, NetworkInfo, NetworkInterface, NetworkModel, StorageInfo,
    StorageModel, interface_models, storage_models,
};
use crate::number::{
    CharClass, float_text, is_float_text, is_plain_decimal, parse_u32, parse_u64, parse_unsigned,
    plain_decimal, run_end, scan_run,
};
use crate::services::size::{size_of, size_of_upper};
use crate::space::{trim, trim_of};
use crate::split::{fields, lines, seqs, split_fields, split_lines, split_words, words};
use crate::text::{joined, same_chars};
use crate::text::{
    append, contains, ends_with, from_chars, has_prefix, has_substring, has_suffix, replace,
    replaced, slice, starts_with, to_chars,
};

verus! {

/// `s` without the colour and title sequences that a terminal adds, and
/// with every line ending turned into a line feed.
pub open spec fn strip_codes(s: Seq<char>) -> Seq<char> {
    let a = replaced(s, "\u{1b}[01;31m"@, ""@);
    let b = replaced(a, "\u{1b}[m"@, ""@);
    let c = replaced(b, "\u{1b}[K"@, ""@);
    let d = replaced(c, "\u{1b}]0;root@iZ2vcc2rr8aqk0prfnjavaZ:~\u{7}"@, ""@);
    let e = replaced(d, "\r\n"@, "\n"@);
    replaced(e, "\r"@, "\n"@)
}

/// Whether the trimmed line `t` is empty, echoes a telemetry command or
/// shows a prompt.
pub open spec fn is_noise(t: Seq<char>) -> bool {
    ||| t.len() == 0
    ||| starts_with(t, "lscpu"@)
    ||| starts_with(t, "nproc"@)
    ||| starts_with(t, "top"@)
    ||| starts_with(t, "cat"@)
    ||| starts_with(t, "[root@"@)
    ||| ends_with(t, "]#"@)
    ||| ends_with(t, "$"@)
}

/// The lines of `ls` that are not noise, each trimmed and ended by a line
/// feed.
pub open spec fn kept_text(ls: Seq<Seq<char>>) -> Seq<char>
    decreases ls.len(),
{
    if ls.len() == 0 {
        Seq::empty()
    } else {
        let t = trim(ls.last());
        kept_text(ls.drop_last()) + if is_noise(t) {
            Seq::empty()
        } else {
            t.push('\n')
        }
    }
}

/// What a command printed, without terminal codes, command echoes,
/// prompts, empty lines and surrounding white space.
pub open spec fn clean_output(output: Seq<char>) -> Seq<char> {
    trim(kept_text(lines(strip_codes(output))))
}

/// What a scan of lines looks for.
#[derive(Debug, Clone, Copy, PartialEq, Eq, Structural)]
pub enum LineKind {
    /// Names the processor model, and not that of the firmware.
    Model,
    /// Names the processor vendor.
    Vendor,
    /// Holds an unsigned number and nothing else.
    Count,
    /// Shows the shares of processor time.
    Usage,
    /// States the processor's clock.
    Frequency,
    /// Holds a floating-point numeral of more than three characters and
    /// nothing else.
    Reading,
}

/// Whether `line` is of the given kind.
pub open spec fn line_is(kind: LineKind, line: Seq<char>) -> bool {
    match kind {
        LineKind::Model => contains(line, "Model name:"@) && !contains(line, "BIOS"@),
        LineKind::Vendor => contains(line, "Vendor ID:"@),
        LineKind::Count => parse_unsigned(trim(line), u32::MAX as nat) is Some,
        LineKind::Usage => contains(line, "Cpu(s)"@),
        LineKind::Frequency => contains(line, "CPU MHz"@),
        LineKind::Reading => is_float_text(trim(line)) && trim(line).len() > 3,
    }
}

/// The first line of the given kind at or after position `from`.
pub open spec fn first_line(ls: Seq<Seq<char>>, kind: LineKind, from: int) -> Option<Seq<char>>
    decreases ls.len() - from,
{
    if from < 0 || from >= ls.len() {
        None
    } else if line_is(kind, ls[from]) {
        Some(ls[from])
    } else {
        first_line(ls, kind, from + 1)
    }
}

/// The processor model that the lines name: what follows the model's
/// label, else what follows the vendor's, else a placeholder.
pub open spec fn model_in(ls: Seq<Seq<char>>) -> Seq<char> {
    match first_line(ls, LineKind::Model, 0) {
        Some(line) => trim(replaced(line, "Model name:"@, ""@)),
        None => match first_line(ls, LineKind::Vendor, 0) {
            Some(line) => trim(replaced(line, "Vendor ID:"@, ""@)),
            None => "Unknown CPU"@,
        },
    }
}

/// The number of cores that the lines state: the first line that is a
/// number; one where there is none.
pub open spec fn cores_in(ls: Seq<Seq<char>>) -> nat {
    match first_line(ls, LineKind::Count, 0) {
        Some(line) => parse_unsigned(trim(line), u32::MAX as nat)->0,
        None => 1,
    }
}

/// The processor model that `lscpu` names in `output`.
pub open spec fn cpu_model(output: Seq<char>) -> Seq<char> {
    model_in(lines(clean_output(output)))
}

/// The number of cores that `nproc` printed in `output`.
pub open spec fn cpu_cores(output: Seq<char>) -> nat {
    cores_in(lines(clean_output(output)))
}

/// Whether the trimmed line `t` is empty, or shows a command or a prompt
/// rather than a result.
pub open spec fn is_echo(t: Seq<char>) -> bool {
    ||| t.len() == 0
    ||| contains(t, "grep"@)
    ||| contains(t, "awk"@)
    ||| contains(t, "sed"@)
    ||| contains(t, "top"@)
    ||| contains(t, "vmstat"@)
    ||| contains(t, "cat"@)
    ||| contains(t, "lscpu"@)
    ||| contains(t, "sensors"@)
    ||| contains(t, "[root@"@)
    ||| contains(t, "]#"@)
}

/// The first run of digits, points and minus signs in `t`; empty where `t`
/// holds none of them.
pub open spec fn first_numeral(t: Seq<char>) -> Seq<char> {
    let begin = run_end(t, CharClass::Numeric, false, 0);
    let end = run_end(t, CharClass::Numeric, true, begin);
    t.subrange(begin, end)
}

/// The number found in the lines at or after position `from`: the first
/// numeral of the first line that is a result and whose first numeral is a
/// plain decimal; empty where there is none.
pub open spec fn number_in(ls: Seq<Seq<char>>, from: int) -> Seq<char>
    decreases ls.len() - from,
{
    if from < 0 || from >= ls.len() {
        Seq::empty()
    } else {
        let t = trim(ls[from]);
        if !is_echo(t) && is_plain_decimal(first_numeral(t)) {
            first_numeral(t)
        } else {
            number_in(ls, from + 1)
        }
    }
}

/// Parsers for the output of the telemetry commands.
pub struct SshDataParser;

/// Whether the trimmed line `t` is noise.
fn noise(t: &Vec<char>) -> (yes: bool)
    ensures
        yes == is_noise(t@),
{
    t.len() == 0 || has_prefix(t, &to_chars("lscpu")) || has_prefix(t, &to_chars("nproc"))
        || has_prefix(t, &to_chars("top")) || has_prefix(t, &to_chars("cat")) || has_prefix(
        t,
        &to_chars("[root@"),
    ) || has_suffix(t, &to_chars("]#")) || has_suffix(t, &to_chars("$"))
}

/// Whether the trimmed line `t` shows a command or a prompt.
fn echo(t: &Vec<char>) -> (yes: bool)
    ensures
        yes == is_echo(t@),
{
    t.len() == 0 || has_substring(t, &to_chars("grep")) || has_substring(t, &to_chars("awk"))
        || has_substring(t, &to_chars("sed")) || has_substring(t, &to_chars("top"))
        || has_substring(t, &to_chars("vmstat")) || has_substring(t, &to_chars("cat"))
        || has_substring(t, &to_chars("lscpu")) || has_substring(t, &to_chars("sensors"))
        || has_substring(t, &to_chars("[root@")) || has_substring(t, &to_chars("]#"))
}

/// `s` with each occurrence of `pat` replaced by `to`.
fn replace_text(s: &Vec<char>, pat: &str, to: &str) -> (out: Vec<char>)
    requires
        pat@.len() > 0,
    ensures
        out@ == replaced(s@, pat@, to@),
{
    replace(s, &to_chars(pat), &to_chars(to))
}

/// `s` without terminal codes, with line feeds for line endings.
fn strip(s: &Vec<char>) -> (out: Vec<char>)
    ensures
        out@ == strip_codes(s@),
{
    proof {
        reveal_strlit("\u{1b}[01;31m");
        reveal_strlit("\u{1b}[m");
        reveal_strlit("\u{1b}[K");
        reveal_strlit("\u{1b}]0;root@iZ2vcc2rr8aqk0prfnjavaZ:~\u{7}");
        reveal_strlit("\r\n");
        reveal_strlit("\r");
    }
    let a: Vec<char> = replace_text(s, "\u{1b}[01;31m", "");
    let b: Vec<char> = replace_text(&a, "\u{1b}[m", "");
    let c: Vec<char> = replace_text(&b, "\u{1b}[K", "");
    let d: Vec<char> = replace_text(&c, "\u{1b}]0;root@iZ2vcc2rr8aqk0prfnjavaZ:~\u{7}", "");
    let e: Vec<char> = replace_text(&d, "\r\n", "\n");
    replace_text(&e, "\r", "\n")
}

/// What a command printed, cleaned.
pub fn clean_chars(output: &Vec<char>) -> (cleaned: Vec<char>)
    ensures
        cleaned@ == clean_output(output@),
{
    let stripped: Vec<char> = strip(output);
    let ls: Vec<Vec<char>> = split_lines(&stripped);
    let mut result: Vec<char> = Vec::new();
    let mut i: usize = 0;
    proof {
        assert(seqs(ls@).take(0) =~= Seq::<Seq<char>>::empty());
    }
    while i < ls.len()
        invariant
            i <= ls.len(),
            result@ == kept_text(seqs(ls@).take(i as int)),
        decreases ls.len() - i,
    {
        let t: Vec<char> = trim_of(&ls[i]);
        proof {
            assert(seqs(ls@).take(i + 1).drop_last() =~= seqs(ls@).take(i as int));
            assert(seqs(ls@).take(i + 1).last() == ls@[i as int]@);
        }
        if !noise(&t) {
            let ghost before = result@;
            append(&mut result, &t);
            result.push('\n');
            proof {
                assert(result@ =~= before + t@.push('\n'));
            }
        } else {
            proof {
                assert(result@ + Seq::<char>::empty() =~= result@);
            }
        }
        i += 1;
    }
    proof {
        assert(seqs(ls@).take(i as int) =~= seqs(ls@));
    }
    trim_of(&result)
}

/// Whether `line` is of the given kind.
fn is_kind(kind: LineKind, line: &Vec<char>) -> (yes: bool)
    ensures
        yes == line_is(kind, line@),
{
    match kind {
        LineKind::Model => has_substring(line, &to_chars("Model name:")) && !has_substring(
            line,
            &to_chars("BIOS"),
        ),
        LineKind::Vendor => has_substring(line, &to_chars("Vendor ID:")),
        LineKind::Count => parse_u32(&trim_of(line)).is_some(),
        LineKind::Usage => has_substring(line, &to_chars("Cpu(s)")),
        LineKind::Frequency => has_substring(line, &to_chars("CPU MHz")),
        LineKind::Reading => {
            let t: Vec<char> = trim_of(line);
            float_text(&t) && t.len() > 3
        },
    }
}

/// Position of the first line of the given kind.
pub(crate) fn find_line(ls: &Vec<Vec<char>>, kind: LineKind) -> (found: Option<usize>)
    ensures
        match found {
            Some(i) => i < ls.len() && line_is(kind, ls@[i as int]@) && first_line(
                seqs(ls@),
                kind,
                0,
            ) == Some(ls@[i as int]@),
            None => first_line(seqs(ls@), kind, 0) is None,
        },
{
    let mut i: usize = 0;
    while i < ls.len()
        invariant
            i <= ls.len(),
            first_line(seqs(ls@), kind, 0) == first_line(seqs(ls@), kind, i as int),
        decreases ls.len() - i,
    {
        proof {
            assert(seqs(ls@)[i as int] == ls@[i as int]@);
        }
        if is_kind(kind, &ls[i]) {
            return Some(i);
        }
        i += 1;
    }
    None
}

/// The processor model that the lines name.
pub(crate) fn model_of(ls: &Vec<Vec<char>>) -> (model: String)
    ensures
        model@ == model_in(seqs(ls@)),
{
    proof {
        reveal_strlit("Model name:");
        reveal_strlit("Vendor ID:");
    }
    match find_line(ls, LineKind::Model) {
        Some(i) => {
            let rest: Vec<char> = replace_text(&ls[i], "Model name:", "");
            from_chars(&trim_of(&rest))
        },
        None => match find_line(ls, LineKind::Vendor) {
            Some(i) => {
                let rest: Vec<char> = replace_text(&ls[i], "Vendor ID:", "");
                from_chars(&trim_of(&rest))
            },
            None => "Unknown CPU".to_owned(),
        },
    }
}

/// The number of cores that the lines state.
pub(crate) fn cores_of(ls: &Vec<Vec<char>>) -> (cores: u32)
    ensures
        cores == cores_in(seqs(ls@)),
{
    match find_line(ls, LineKind::Count) {
        Some(i) => match parse_u32(&trim_of(&ls[i])) {
            Some(n) => n,
            None => 1,
        },
        None => 1,
    }
}

impl SshDataParser {
    /// What a command printed, without terminal codes, command echoes,
    /// prompts, empty lines and surrounding white space.
    pub fn clean_command_output(output: &str) -> (cleaned: String)
        ensures
            cleaned@ == clean_output(output@),
    {
        let cleaned: Vec<char> = clean_chars(&to_chars(output));
        from_chars(&cleaned)
    }

    /// The processor model named in the output of `lscpu`.
    pub fn extract_cpu_model(output: &str) -> (model: String)
        ensures
            model@ == cpu_model(output@),
    {
        let cleaned: Vec<char> = clean_chars(&to_chars(output));
        let ls: Vec<Vec<char>> = split_lines(&cleaned);
        model_of(&ls)
    }

    /// The number of cores printed by `nproc`.
    pub fn extract_cpu_cores(output: &str) -> (cores: u32)
        ensures
            cores == cpu_cores(output@),
    {
        let cleaned: Vec<char> = clean_chars(&to_chars(output));
        let ls: Vec<Vec<char>> = split_lines(&cleaned);
        cores_of(&ls)
    }

    /// The first number in what a command printed: lines that show a
    /// command or a prompt are passed over, and so is a line whose first
    /// run of digits, points and minus signs is no plain decimal.
    pub fn extract_number_from_output(output: &str) -> (number: String)
        ensures
            number@ == number_in(lines(output@), 0),
    {
        let ls: Vec<Vec<char>> = split_lines(&to_chars(output));
        let mut i: usize = 0;
        while i < ls.len()
            invariant
                i <= ls.len(),
                seqs(ls@) == lines(output@),
                number_in(lines(output@), 0) == number_in(seqs(ls@), i as int),
            decreases ls.len() - i,
        {
            let t: Vec<char> = trim_of(&ls[i]);
            proof {
                assert(seqs(ls@)[i as int] == ls@[i as int]@);
            }
            let begin: usize = scan_run(&t, CharClass::Numeric, false, 0);
            let end: usize = scan_run(&t, CharClass::Numeric, true, begin);
            let numeral: Vec<char> = slice(&t, begin, end);
            if !echo(&t) && plain_decimal(&numeral) {
                return from_chars(&numeral);
            }
            i += 1;
        }
        String::new()
    }
}

/// The upper-case form that `str::to_uppercase` gives to `s`.
pub uninterp spec fn uppercase(s: Seq<char>) -> Seq<char>;

/// `str::to_uppercase`: the text with each character replaced by its
/// upper-case form under Unicode's rules. The result depends on the text
/// alone; `uppercase` is the name under which contracts refer to it.
#[verifier::external_body]
pub(crate) fn to_upper(s: &str) -> (upper: String)
    ensures
        upper@ == uppercase(s@),
{
    s.to_uppercase()
}

/// Whether a file system is one that the kernel makes up, going by its
/// device and its mount point. A device of a virtual kind always is. Else
/// the mount point decides: outside the virtual trees it is real; under
/// `/dev` a device that itself lives under `/dev/` is real; under `/run`
/// anything but a `tmpfs` is real.
pub open spec fn is_virtual(device: Seq<char>, mount_point: Seq<char>) -> bool {
    if starts_with(device, "tmpfs"@) || starts_with(device, "devtmpfs"@) || starts_with(
        device,
        "overlay"@,
    ) || starts_with(device, "squashfs"@) || starts_with(device, "sysfs"@) || starts_with(
        device,
        "proc"@,
    ) {
        true
    } else if !(starts_with(mount_point, "/proc"@) || starts_with(mount_point, "/sys"@)
        || starts_with(mount_point, "/dev"@) || starts_with(mount_point, "/run/user"@)
        || starts_with(mount_point, "/snap"@) || starts_with(mount_point, "/var/lib/docker"@)) {
        false
    } else if starts_with(mount_point, "/dev"@) && starts_with(device, "/dev/"@) {
        false
    } else if starts_with(mount_point, "/run"@) && !starts_with(device, "tmpfs"@) {
        false
    } else {
        true
    }
}

/// The number that `line` gives for `key`: its second word, where the
/// first is the key and the second an unsigned number.
pub open spec fn line_value(line: Seq<char>, key: Seq<char>) -> Option<nat> {
    let w = words(line);
    if w.len() >= 2 && w[0] == key {
        parse_unsigned(w[1], u64::MAX as nat)
    } else {
        None
    }
}

/// The number that the last line with a number for `key` gives; zero
/// where no line gives one.
pub open spec fn field_value(ls: Seq<Seq<char>>, key: Seq<char>) -> nat
    decreases ls.len(),
{
    if ls.len() == 0 {
        0
    } else {
        match line_value(ls.last(), key) {
            Some(v) => v,
            None => field_value(ls.drop_last(), key),
        }
    }
}

/// `total` less `free`, and zero where that would be negative.
pub open spec fn used_of(total: nat, free: nat) -> nat {
    if total >= free {
        (total - free) as nat
    } else {
        0
    }
}

/// Total memory in mebibytes according to `/proc/meminfo`.
pub open spec fn memory_total(output: Seq<char>) -> nat {
    field_value(lines(output), "MemTotal:"@) / 1024
}

/// Free memory in mebibytes according to `/proc/meminfo`: what is
/// available, or, where that is not stated, what is free.
pub open spec fn memory_free(output: Seq<char>) -> nat {
    if field_value(lines(output), "MemAvailable:"@) > 0 {
        field_value(lines(output), "MemAvailable:"@) / 1024
    } else {
        field_value(lines(output), "MemFree:"@) / 1024
    }
}

/// The size in whole mebibytes that `text` states.
pub open spec fn size_in_mb(text: Seq<char>) -> nat {
    size_of(uppercase(text))
}

/// The file system that a line of `df -h` describes, unless the line has
/// fewer than six columns or describes a virtual one.
pub open spec fn df_row(line: Seq<char>) -> Option<StorageModel> {
    let w = words(line);
    if w.len() >= 6 && !is_virtual(w[0], w[5]) {
        Some(
            StorageModel {
                device: w[0],
                mount_point: w[5],
                filesystem: "Unknown"@,
                total: size_in_mb(w[1]) as u64,
                used: size_in_mb(w[2]) as u64,
                free: size_in_mb(w[3]) as u64,
                storage_type: "hdd"@,
            },
        )
    } else {
        None
    }
}

/// The file systems described by the lines at or after position `from`.
pub open spec fn df_rows(ls: Seq<Seq<char>>, from: int) -> Seq<StorageModel>
    decreases ls.len() - from,
{
    if from < 0 || from >= ls.len() {
        Seq::empty()
    } else {
        match df_row(ls[from]) {
            Some(row) => seq![row] + df_rows(ls, from + 1),
            None => df_rows(ls, from + 1),
        }
    }
}

/// The number that `word` denotes, and zero where it denotes none.
pub open spec fn counter(word: Seq<char>) -> nat {
    match parse_unsigned(word, u64::MAX as nat) {
        Some(v) => v,
        None => 0,
    }
}

/// The interface that a line of `/proc/net/dev` describes, unless the
/// line has no colon, describes the loopback interface or has fewer than
/// sixteen counters.
pub open spec fn netdev_row(line: Seq<char>) -> Option<InterfaceModel> {
    let f = fields(line, ':');
    if f.len() >= 2 && trim(f[0]) != "lo"@ && words(f[1]).len() >= 16 {
        Some(
            InterfaceModel {
                name: trim(f[0]),
                status: "down"@,
                rx: counter(words(f[1])[0]) as u64,
                tx: counter(words(f[1])[8]) as u64,
            },
        )
    } else {
        None
    }
}

/// The interfaces described by the lines at or after position `from`.
pub open spec fn netdev_rows(ls: Seq<Seq<char>>, from: int) -> Seq<InterfaceModel>
    decreases ls.len() - from,
{
    if from < 0 || from >= ls.len() {
        Seq::empty()
    } else {
        match netdev_row(ls[from]) {
            Some(row) => seq![row] + netdev_rows(ls, from + 1),
            None => netdev_rows(ls, from + 1),
        }
    }
}

/// The sum of the bytes received on `interfaces`.
pub open spec fn sum_rx(interfaces: Seq<InterfaceModel>) -> nat
    decreases interfaces.len(),
{
    if interfaces.len() == 0 {
        0
    } else {
        sum_rx(interfaces.drop_last()) + interfaces.last().rx as nat
    }
}

/// The sum of the bytes sent on `interfaces`.
pub open spec fn sum_tx(interfaces: Seq<InterfaceModel>) -> nat
    decreases interfaces.len(),
{
    if interfaces.len() == 0 {
        0
    } else {
        sum_tx(interfaces.drop_last()) + interfaces.last().tx as nat
    }
}

/// `value`, or the largest `u64` where it is larger.
pub open spec fn saturated(value: nat) -> u64 {
    if value > u64::MAX {
        u64::MAX
    } else {
        value as u64
    }
}

/// The status of `interface` according to the output of `ip addr show`:
/// where the output names the interface, it is up if the output holds
/// `UP` anywhere, else down; where it does not, the status stays.
pub open spec fn with_status(interface: InterfaceModel, output: Seq<char>) -> InterfaceModel {
    if contains(output, interface.name + ":"@) {
        InterfaceModel {
            status: if contains(output, "UP"@) {
                "up"@
            } else {
                "down"@
            },
            ..interface
        }
    } else {
        interface
    }
}

/// The number that the lines give for `key`.
pub(crate) fn read_field(ls: &Vec<Vec<char>>, key: &str) -> (value: u64)
    ensures
        value == field_value(seqs(ls@), key@),
{
    let wanted: Vec<char> = to_chars(key);
    let mut value: u64 = 0;
    let mut i: usize = 0;
    proof {
        assert(seqs(ls@).take(0) =~= Seq::<Seq<char>>::empty());
    }
    while i < ls.len()
        invariant
            i <= ls.len(),
            wanted@ == key@,
            value == field_value(seqs(ls@).take(i as int), key@),
        decreases ls.len() - i,
    {
        proof {
            assert(seqs(ls@).take(i + 1).drop_last() =~= seqs(ls@).take(i as int));
            assert(seqs(ls@).take(i + 1).last() == ls@[i as int]@);
        }
        let w: Vec<Vec<char>> = split_words(&ls[i]);
        if w.len() >= 2 {
            proof {
                assert(seqs(w@)[0] == w@[0]@);
                assert(seqs(w@)[1] == w@[1]@);
            }
            if same_chars(&w[0], &wanted) {
                if let Some(v) = parse_u64(&w[1]) {
                    value = v;
                }
            }
        }
        i += 1;
    }
    proof {
        assert(seqs(ls@).take(i as int) =~= seqs(ls@));
    }
    value
}

/// The number that `word` denotes, and zero where it denotes none.
fn read_counter(word: &Vec<char>) -> (value: u64)
    ensures
        value == counter(word@),
{
    match parse_u64(word) {
        Some(v) => v,
        None => 0,
    }
}

impl SshDataParser {
    /// The size in whole mebibytes that `size_str` states, as `df -h`
    /// prints sizes: a decimal numeral and a unit. The numeral is scaled
    /// exactly and rounded down.
    pub fn parse_size_to_mb(size_str: &str) -> (size: u64)
        ensures
            size == size_in_mb(size_str@),
    {
        let upper: String = to_upper(size_str);
        size_of_upper(&to_chars(upper.as_str()))
    }

    /// Whether a file system is one that the kernel makes up.
    pub fn is_virtual_filesystem(device: &str, mount_point: &str) -> (yes: bool)
        ensures
            yes == is_virtual(device@, mount_point@),
    {
        let d: Vec<char> = to_chars(device);
        let m: Vec<char> = to_chars(mount_point);
        if has_prefix(&d, &to_chars("tmpfs")) || has_prefix(&d, &to_chars("devtmpfs"))
            || has_prefix(&d, &to_chars("overlay")) || has_prefix(&d, &to_chars("squashfs"))
            || has_prefix(&d, &to_chars("sysfs")) || has_prefix(&d, &to_chars("proc")) {
            return true;
        }
        if !(has_prefix(&m, &to_chars("/proc")) || has_prefix(&m, &to_chars("/sys")) || has_prefix(
            &m,
            &to_chars("/dev"),
        ) || has_prefix(&m, &to_chars("/run/user")) || has_prefix(&m, &to_chars("/snap"))
            || has_prefix(&m, &to_chars("/var/lib/docker"))) {
            return false;
        }
        if has_prefix(&m, &to_chars("/dev")) && has_prefix(&d, &to_chars("/dev/")) {
            return false;
        }
        if has_prefix(&m, &to_chars("/run")) && !has_prefix(&d, &to_chars("tmpfs")) {
            return false;
        }
        true
    }

    /// Reads total, free and used memory from the output of
    /// `cat /proc/meminfo`, in mebibytes; the swap entry stays as it is.
    pub fn parse_meminfo(output: &str, memory_info: &mut MemoryInfo) -> (result: Result<(), String>)
        ensures
            result is Ok,
            final(memory_info).total == memory_total(output@),
            final(memory_info).free == memory_free(output@),
            final(memory_info).used == used_of(memory_total(output@), memory_free(output@)),
            final(memory_info).swap == old(memory_info).swap,
    {
        let ls: Vec<Vec<char>> = split_lines(&to_chars(output));
        let mem_total: u64 = read_field(&ls, "MemTotal:");
        let mem_available: u64 = read_field(&ls, "MemAvailable:");
        let mem_free: u64 = read_field(&ls, "MemFree:");
        memory_info.total = mem_total / 1024;
        memory_info.free = if mem_available > 0 {
            mem_available / 1024
        } else {
            mem_free / 1024
        };
        memory_info.used = if memory_info.total >= memory_info.free {
            memory_info.total - memory_info.free
        } else {
            0
        };
        Ok(())
    }

    /// Appends to `storage_list` the real file systems that the output of
    /// `df -h` lists after its first two lines.
    pub fn parse_df_output(output: &str, storage_list: &mut Vec<StorageInfo>) -> (result: Result<
        (),
        String,
    >)
        ensures
            result is Ok,
            storage_models(final(storage_list)@) == storage_models(old(storage_list)@) + df_rows(
                lines(output@),
                2,
            ),
    {
        let ls: Vec<Vec<char>> = split_lines(&to_chars(output));
        let mut i: usize = 2;
        if ls.len() < 2 {
            proof {
                assert(storage_models(storage_list@) + df_rows(lines(output@), 2)
                    =~= storage_models(storage_list@));
            }
            return Ok(());
        }
        while i < ls.len()
            invariant
                2 <= i <= ls.len(),
                seqs(ls@) == lines(output@),
                storage_models(storage_list@) + df_rows(seqs(ls@), i as int) == storage_models(
                    old(storage_list)@,
                ) + df_rows(seqs(ls@), 2),
            decreases ls.len() - i,
        {
            proof {
                assert(seqs(ls@)[i as int] == ls@[i as int]@);
            }
            let w: Vec<Vec<char>> = split_words(&ls[i]);
            if w.len() >= 6 {
                proof {
                    assert(seqs(w@)[0] == w@[0]@);
                    assert(seqs(w@)[1] == w@[1]@);
                    assert(seqs(w@)[2] == w@[2]@);
                    assert(seqs(w@)[3] == w@[3]@);
                    assert(seqs(w@)[5] == w@[5]@);
                }
                let device: String = from_chars(&w[0]);
                let mount_point: String = from_chars(&w[5]);
                if !SshDataParser::is_virtual_filesystem(device.as_str(), mount_point.as_str()) {
                    let total: String = from_chars(&w[1]);
                    let used: String = from_chars(&w[2]);
                    let free: String = from_chars(&w[3]);
                    let info = StorageInfo {
                        device,
                        mount_point,
                        filesystem: "Unknown".to_owned(),
                        total: SshDataParser::parse_size_to_mb(total.as_str()),
                        used: SshDataParser::parse_size_to_mb(used.as_str()),
                        free: SshDataParser::parse_size_to_mb(free.as_str()),
                        storage_type: "hdd".to_owned(),
                    };
                    proof {
                        assert(df_row(ls@[i as int]@) == Some(info@));
                        assert(storage_models(storage_list@.push(info)) =~= storage_models(
                            storage_list@,
                        ).push(info@));
                        assert(storage_models(storage_list@).push(info@) + df_rows(
                            seqs(ls@),
                            i + 1,
                        ) =~= storage_models(storage_list@) + df_rows(seqs(ls@), i as int));
                    }
                    storage_list.push(info);
                }
            }
            i += 1;
        }
        proof {
            assert(storage_models(storage_list@) + df_rows(seqs(ls@), i as int) =~= storage_models(
                storage_list@,
            ));
        }
        Ok(())
    }

    /// Appends to the interfaces of `network_info` those that the output
    /// of `cat /proc/net/dev` lists after its first two lines; the totals
    /// stay as they are.
    pub fn parse_netdev_output(output: &str, network_info: &mut NetworkInfo) -> (result: Result<
        (),
        String,
    >)
        ensures
            result is Ok,
            final(network_info)@ == (NetworkModel {
                interfaces: old(network_info)@.interfaces + netdev_rows(lines(output@), 2),
                ..old(network_info)@
            }),
    {
        let ls: Vec<Vec<char>> = split_lines(&to_chars(output));
        let lo: Vec<char> = to_chars("lo");
        let mut i: usize = 2;
        if ls.len() < 2 {
            proof {
                assert(network_info@.interfaces + netdev_rows(lines(output@), 2)
                    =~= network_info@.interfaces);
            }
            return Ok(());
        }
        while i < ls.len()
            invariant
                2 <= i <= ls.len(),
                lo@ == "lo"@,
                seqs(ls@) == lines(output@),
                network_info.total_rx == old(network_info).total_rx,
                network_info.total_tx == old(network_info).total_tx,
                network_info@.interfaces + netdev_rows(seqs(ls@), i as int) == old(
                    network_info,
                )@.interfaces + netdev_rows(seqs(ls@), 2),
            decreases ls.len() - i,
        {
            proof {
                assert(seqs(ls@)[i as int] == ls@[i as int]@);
            }
            let f: Vec<Vec<char>> = split_fields(&ls[i], ':');
            if f.len() >= 2 {
                proof {
                    assert(seqs(f@)[0] == f@[0]@);
                    assert(seqs(f@)[1] == f@[1]@);
                }
                let name: Vec<char> = trim_of(&f[0]);
                if !same_chars(&name, &lo) {
                    let stats: Vec<Vec<char>> = split_words(&f[1]);
                    if stats.len() >= 16 {
                        proof {
                            assert(seqs(stats@)[0] == stats@[0]@);
                            assert(seqs(stats@)[8] == stats@[8]@);
                        }
                        let interface = NetworkInterface {
                            name: from_chars(&name),
                            status: "down".to_owned(),
                            rx: read_counter(&stats[0]),
                            tx: read_counter(&stats[8]),
                        };
                        proof {
                            assert(netdev_row(ls@[i as int]@) == Some(interface@));
                            assert(interface_models(network_info.interfaces@.push(interface))
                                =~= interface_models(network_info.interfaces@).push(interface@));
                            assert(network_info@.interfaces.push(interface@) + netdev_rows(
                                seqs(ls@),
                                i + 1,
                            ) =~= network_info@.interfaces + netdev_rows(seqs(ls@), i as int));
                        }
                        network_info.interfaces.push(interface);
                    }
                }
            }
            i += 1;
        }
        proof {
            assert(network_info@.interfaces + netdev_rows(seqs(ls@), i as int)
                =~= network_info@.interfaces);
        }
        Ok(())
    }
}

impl SshDataParser {
    /// Sets the status of each interface that the output of `ip addr show`
    /// names: up where the output holds `UP` anywhere, else down.
    pub fn enrich_network_status(output: &str, network_info: &mut NetworkInfo)
        ensures
            final(network_info)@ == (NetworkModel {
                interfaces: old(network_info)@.interfaces.map_values(
                    |interface: InterfaceModel| with_status(interface, output@),
                ),
                ..old(network_info)@
            }),
    {
        let text: Vec<char> = to_chars(output);
        let up: bool = has_substring(&text, &to_chars("UP"));
        let mut i: usize = 0;
        while i < network_info.interfaces.len()
            invariant
                i <= network_info.interfaces.len(),
                text@ == output@,
                up == contains(output@, "UP"@),
                network_info.total_rx == old(network_info).total_rx,
                network_info.total_tx == old(network_info).total_tx,
                network_info.interfaces.len() == old(network_info).interfaces.len(),
                forall|j: int|
                    0 <= j < i ==> (#[trigger] network_info.interfaces@[j])@ == with_status(
                        old(network_info).interfaces@[j]@,
                        output@,
                    ),
                forall|j: int|
                    i <= j < network_info.interfaces.len() ==> (
                    #[trigger] network_info.interfaces@[j])@ == old(network_info).interfaces@[j]@,
            decreases network_info.interfaces.len() - i,
        {
            let label: String = joined(network_info.interfaces[i].name.as_str(), ":");
            if has_substring(&text, &to_chars(label.as_str())) {
                let status: String = if up {
                    "up".to_owned()
                } else {
                    "down".to_owned()
                };
                let renewed = NetworkInterface {
                    name: network_info.interfaces[i].name.clone(),
                    status,
                    rx: network_info.interfaces[i].rx,
                    tx: network_info.interfaces[i].tx,
                };
                network_info.interfaces.set(i, renewed);
            }
            i += 1;
        }
        proof {
            assert(network_info@.interfaces =~= old(network_info)@.interfaces.map_values(
                |interface: InterfaceModel| with_status(interface, output@),
            ));
        }
    }

    /// Sets the totals of `network_info` to the sums over its interfaces,
    /// or to the largest `u64` where a sum is larger.
    pub fn calculate_network_totals(network_info: &mut NetworkInfo)
        ensures
            final(network_info)@ == (NetworkModel {
                total_rx: saturated(sum_rx(old(network_info)@.interfaces)),
                total_tx: saturated(sum_tx(old(network_info)@.interfaces)),
                ..old(network_info)@
            }),
    {
        let mut total_rx: u64 = 0;
        let mut total_tx: u64 = 0;
        let mut i: usize = 0;
        let ghost all = network_info@.interfaces;
        proof {
            assert(all.take(0) =~= Seq::<InterfaceModel>::empty());
        }
        while i < network_info.interfaces.len()
            invariant
                i <= network_info.interfaces.len(),
                all == network_info@.interfaces,
                *network_info == *old(network_info),
                total_rx == saturated(sum_rx(all.take(i as int))),
                total_tx == saturated(sum_tx(all.take(i as int))),
            decreases network_info.interfaces.len() - i,
        {
            proof {
                assert(all.take(i + 1).drop_last() =~= all.take(i as int));
                assert(all.take(i + 1).last() == network_info.interfaces@[i as int]@);
            }
            let rx: u64 = network_info.interfaces[i].rx;
            let tx: u64 = network_info.interfaces[i].tx;
            total_rx = if rx > u64::MAX - total_rx {
                u64::MAX
            } else {
                total_rx + rx
            };
            total_tx = if tx > u64::MAX - total_tx {
                u64::MAX
            } else {
                total_tx + tx
            };
            i += 1;
        }
        proof {
            assert(all.take(i as int) =~= all);
        }
        network_info.total_rx = total_rx;
        network_info.total_tx = total_tx;
    }
}

/// The first floating-point numeral among the words at or after position
/// `from`.
pub open spec fn first_float(ws: Seq<Seq<char>>, from: int) -> Option<Seq<char>>
    decreases ws.len() - from,
{
    if from < 0 || from >= ws.len() {
        None
    } else if is_float_text(ws[from]) {
        Some(ws[from])
    } else {
        first_float(ws, from + 1)
    }
}

/// The idle share stated by the first of the parts at or after position
/// `from` that mentions it: its first floating-point numeral, or `0`
/// where it holds none.
pub open spec fn idle_in(parts: Seq<Seq<char>>, from: int) -> Option<Seq<char>>
    decreases parts.len() - from,
{
    if from < 0 || from >= parts.len() {
        None
    } else if contains(parts[from], "id"@) {
        match first_float(words(parts[from]), 0) {
            Some(numeral) => Some(numeral),
            None => Some("0"@),
        }
    } else {
        idle_in(parts, from + 1)
    }
}

/// The idle share of processor time that `top` printed in `output`, as
/// it stands there.
pub open spec fn cpu_idle(output: Seq<char>) -> Option<Seq<char>> {
    match first_line(lines(clean_output(output)), LineKind::Usage, 0) {
        Some(line) => idle_in(fields(line, ','), 0),
        None => None,
    }
}

/// The number that stands in the first of the lines that is of the given
/// kind, if there is such a line and a number in it.
pub open spec fn number_in_kind(ls: Seq<Seq<char>>, kind: LineKind) -> Option<Seq<char>> {
    match first_line(ls, kind, 0) {
        Some(line) => if number_in(lines(line), 0).len() > 0 {
            Some(number_in(lines(line), 0))
        } else {
            None
        },
        None => None,
    }
}

/// The number that stands in the first line of the given kind of what a
/// command printed.
pub open spec fn number_of_kind(output: Seq<char>, kind: LineKind) -> Option<Seq<char>> {
    number_in_kind(lines(clean_output(output)), kind)
}

/// The number in the first of the lines that is of the given kind.
pub(crate) fn number_among(ls: &Vec<Vec<char>>, kind: LineKind) -> (number: Option<String>)
    ensures
        match number {
            Some(text) => number_in_kind(seqs(ls@), kind) == Some(text@),
            None => number_in_kind(seqs(ls@), kind) is None,
        },
{
    match find_line(ls, kind) {
        None => None,
        Some(i) => {
            let line: String = from_chars(&ls[i]);
            let number: String = SshDataParser::extract_number_from_output(line.as_str());
            if number.as_str().is_empty() {
                None
            } else {
                Some(number)
            }
        },
    }
}

/// The first floating-point numeral among `ws`.
fn find_float(ws: &Vec<Vec<char>>) -> (found: Option<usize>)
    ensures
        match found {
            Some(i) => i < ws.len() && first_float(seqs(ws@), 0) == Some(ws@[i as int]@),
            None => first_float(seqs(ws@), 0) is None,
        },
{
    let mut i: usize = 0;
    while i < ws.len()
        invariant
            i <= ws.len(),
            first_float(seqs(ws@), 0) == first_float(seqs(ws@), i as int),
        decreases ws.len() - i,
    {
        proof {
            assert(seqs(ws@)[i as int] == ws@[i as int]@);
        }
        if float_text(&ws[i]) {
            return Some(i);
        }
        i += 1;
    }
    None
}

impl SshDataParser {
    /// The idle share of processor time in the output of `top`, as a
    /// numeral: the first floating-point numeral of the first part that
    /// mentions the idle share, in the first line that shows the shares;
    /// `0` where that part holds no numeral; nothing where no line shows
    /// the shares or no part mentions the idle one.
    pub fn cpu_idle_text(output: &str) -> (idle: Option<String>)
        ensures
            match idle {
                Some(text) => cpu_idle(output@) == Some(text@),
                None => cpu_idle(output@) is None,
            },
    {
        let cleaned: Vec<char> = clean_chars(&to_chars(output));
        let ls: Vec<Vec<char>> = split_lines(&cleaned);
        let line: usize = match find_line(&ls, LineKind::Usage) {
            Some(i) => i,
            None => {
                return None;
            },
        };
        let parts: Vec<Vec<char>> = split_fields(&ls[line], ',');
        let id: Vec<char> = to_chars("id");
        let mut i: usize = 0;
        while i < parts.len()
            invariant
                i <= parts.len(),
                id@ == "id"@,
                line < ls.len(),
                first_line(lines(clean_output(output@)), LineKind::Usage, 0) == Some(
                    ls@[line as int]@,
                ),
                seqs(parts@) == fields(ls@[line as int]@, ','),
                idle_in(seqs(parts@), 0) == idle_in(seqs(parts@), i as int),
            decreases parts.len() - i,
        {
            proof {
                assert(seqs(parts@)[i as int] == parts@[i as int]@);
            }
            if has_substring(&parts[i], &id) {
                let ws: Vec<Vec<char>> = split_words(&parts[i]);
                return match find_float(&ws) {
                    Some(k) => Some(from_chars(&ws[k])),
                    None => Some("0".to_owned()),
                };
            }
            i += 1;
        }
        None
    }

    /// The number in the first line of the given kind.
    fn number_text(output: &str, kind: LineKind) -> (number: Option<String>)
        ensures
            match number {
                Some(text) => number_of_kind(output@, kind) == Some(text@),
                None => number_of_kind(output@, kind) is None,
            },
    {
        let cleaned: Vec<char> = clean_chars(&to_chars(output));
        let ls: Vec<Vec<char>> = split_lines(&cleaned);
        number_among(&ls, kind)
    }

    /// The processor's clock in megahertz in the output of `lscpu`, as a
    /// numeral: the number in the first line that states the clock.
    pub fn cpu_frequency_text(output: &str) -> (frequency: Option<String>)
        ensures
            match frequency {
                Some(text) => number_of_kind(output@, LineKind::Frequency) == Some(text@),
                None => number_of_kind(output@, LineKind::Frequency) is None,
            },
    {
        SshDataParser::number_text(output, LineKind::Frequency)
    }

    /// The temperature in thousandths of a degree in the output of the
    /// thermal zone, as a numeral: the number in the first line that is a
    /// floating-point numeral of more than three characters.
    pub fn cpu_temperature_text(output: &str) -> (temperature: Option<String>)
        ensures
            match temperature {
                Some(text) => number_of_kind(output@, LineKind::Reading) == Some(text@),
                None => number_of_kind(output@, LineKind::Reading) is None,
            },
    {
        SshDataParser::number_text(output, LineKind::Reading)
    }
}

} // verus!
