//! Reading `/proc/cpuinfo`, and the answer of one combined processor
//! query.

use vstd::prelude::*;
use vstd::utf8::encode_utf8;
use crate::models::connection::optional_text;
use crate::models::hardware::{CpuInfo, CpuModel};
use crate::number::{float_text, is_float_text, parse_u32, parse_unsigned};
use crate::services::parser::{
    LineKind, SshDataParser, cores_in, cores_of, find_line, first_line, model_in, model_of,
    number_among, number_in_kind,
};
use crate::space::{trim, trim_of};
use crate::split::{fields, lines, seqs, split_fields, split_lines};
use crate::text::{
    contains, from_chars, has_prefix, has_substring, matches_at, occurs_at, slice, starts_with,
    to_chars,
};

verus! {

/// What follows the first colon of `line`, up to the next one, trimmed.
pub open spec fn value_after_colon(line: Seq<char>) -> Option<Seq<char>> {
    let f = fields(line, ':');
    if f.len() >= 2 {
        Some(trim(f[1]))
    } else {
        None
    }
}

/// The number that follows the colon of `line`, where the line begins
/// with `label` and what follows the colon is an unsigned number that
/// fits 32 bits.
pub open spec fn labelled_number(line: Seq<char>, label: Seq<char>) -> Option<nat> {
    if starts_with(line, label) {
        match value_after_colon(line) {
            Some(v) => parse_unsigned(v, u32::MAX as nat),
            None => None,
        }
    } else {
        None
    }
}

/// The number of lines that begin with `label`.
pub open spec fn count_labelled(ls: Seq<Seq<char>>, label: Seq<char>) -> nat
    decreases ls.len(),
{
    if ls.len() == 0 {
        0
    } else {
        count_labelled(ls.drop_last(), label) + if starts_with(ls.last(), label) {
            1nat
        } else {
            0nat
        }
    }
}

/// The number that the last line with a number under `label` gives; zero
/// where none does.
pub open spec fn last_labelled(ls: Seq<Seq<char>>, label: Seq<char>) -> nat
    decreases ls.len(),
{
    if ls.len() == 0 {
        0
    } else {
        match labelled_number(ls.last(), label) {
            Some(v) => v,
            None => last_labelled(ls.drop_last(), label),
        }
    }
}

/// Whether one of the lines gives the number `v` under `label`.
pub open spec fn is_given(ls: Seq<Seq<char>>, label: Seq<char>, v: nat) -> bool {
    exists|i: int| 0 <= i < ls.len() && labelled_number(#[trigger] ls[i], label) == Some(v)
}

/// How many different numbers the lines give under `label`.
pub open spec fn count_distinct(ls: Seq<Seq<char>>, label: Seq<char>) -> nat
    decreases ls.len(),
{
    if ls.len() == 0 {
        0
    } else {
        count_distinct(ls.drop_last(), label) + match labelled_number(ls.last(), label) {
            Some(v) => if is_given(ls.drop_last(), label, v) {
                0nat
            } else {
                1nat
            },
            None => 0nat,
        }
    }
}

/// The model that `line` names, where it begins with the model's label:
/// what follows its colon, or a placeholder where it has no colon.
pub open spec fn named_model(line: Seq<char>) -> Option<Seq<char>> {
    if starts_with(line, "model name"@) {
        match value_after_colon(line) {
            Some(v) => Some(v),
            None => Some("Unknown CPU"@),
        }
    } else {
        None
    }
}

/// The first model named at or after position `from` that is not empty;
/// empty where there is none.
pub open spec fn first_model(ls: Seq<Seq<char>>, from: int) -> Seq<char>
    decreases ls.len() - from,
{
    if from < 0 || from >= ls.len() {
        Seq::empty()
    } else {
        match named_model(ls[from]) {
            Some(model) => if model.len() > 0 {
                model
            } else {
                first_model(ls, from + 1)
            },
            None => first_model(ls, from + 1),
        }
    }
}

/// `value`, or the largest number of 32 bits where it is larger.
pub open spec fn capped_u32(value: nat) -> u32 {
    if value > u32::MAX {
        u32::MAX
    } else {
        value as u32
    }
}

/// The number of cores according to `/proc/cpuinfo`: the number of
/// processors listed; failing that, the cores of one package times the
/// number of packages; failing that, the cores of one package; failing
/// that, one.
pub open spec fn cpuinfo_cores(ls: Seq<Seq<char>>) -> u32 {
    let processors = count_labelled(ls, "processor"@);
    let per_package = last_labelled(ls, "cpu cores"@);
    let packages = count_distinct(ls, "physical id"@);
    if processors > 0 {
        capped_u32(processors)
    } else if per_package > 0 && packages > 0 {
        capped_u32(per_package * packages)
    } else if per_package > 0 {
        capped_u32(per_package)
    } else {
        1
    }
}

/// The processor model according to `/proc/cpuinfo`.
pub open spec fn cpuinfo_model(ls: Seq<Seq<char>>) -> Seq<char> {
    if first_model(ls, 0).len() > 0 {
        first_model(ls, 0)
    } else {
        "Unknown CPU"@
    }
}

/// What follows the first colon of `line`, trimmed.
fn after_colon(line: &Vec<char>) -> (value: Option<Vec<char>>)
    ensures
        match value {
            Some(v) => value_after_colon(line@) == Some(v@),
            None => value_after_colon(line@) is None,
        },
{
    let f: Vec<Vec<char>> = split_fields(line, ':');
    if f.len() >= 2 {
        proof {
            assert(seqs(f@)[1] == f@[1]@);
        }
        Some(trim_of(&f[1]))
    } else {
        None
    }
}

/// The number that `line` gives under `label`.
fn read_labelled(line: &Vec<char>, label: &Vec<char>) -> (value: Option<u32>)
    ensures
        match value {
            Some(v) => labelled_number(line@, label@) == Some(v as nat),
            None => labelled_number(line@, label@) is None,
        },
{
    if !has_prefix(line, label) {
        return None;
    }
    match after_colon(line) {
        Some(v) => parse_u32(&v),
        None => None,
    }
}

/// Whether `seen` holds `v`.
fn holds(seen: &Vec<u32>, v: u32) -> (yes: bool)
    ensures
        yes == seen@.contains(v),
{
    let mut i: usize = 0;
    while i < seen.len()
        invariant
            i <= seen.len(),
            forall|j: int| 0 <= j < i ==> seen@[j] != v,
        decreases seen.len() - i,
    {
        if seen[i] == v {
            return true;
        }
        i += 1;
    }
    false
}

impl SshDataParser {
    /// Reads model and number of cores from the output of
    /// `cat /proc/cpuinfo`.
    pub fn parse_cpuinfo(output: &str, cpu_info: &mut CpuInfo) -> (result: Result<(), String>)
        ensures
            result is Ok,
            final(cpu_info)@ == (CpuModel {
                model: cpuinfo_model(lines(output@)),
                cores: cpuinfo_cores(lines(output@)),
            }),
    {
        let ls: Vec<Vec<char>> = split_lines(&to_chars(output));
        let processor: Vec<char> = to_chars("processor");
        let model_name: Vec<char> = to_chars("model name");
        let cpu_cores: Vec<char> = to_chars("cpu cores");
        let physical_id: Vec<char> = to_chars("physical id");
        let mut processors: u32 = 0;
        let mut per_package: u32 = 0;
        let mut seen: Vec<u32> = Vec::new();
        let mut model: Vec<char> = Vec::new();
        let mut i: usize = 0;
        let ghost all = seqs(ls@);
        proof {
            assert(all.take(0) =~= Seq::<Seq<char>>::empty());
        }
        while i < ls.len()
            invariant
                i <= ls.len(),
                all == seqs(ls@),
                all == lines(output@),
                processor@ == "processor"@,
                model_name@ == "model name"@,
                cpu_cores@ == "cpu cores"@,
                physical_id@ == "physical id"@,
                processors == capped_u32(count_labelled(all.take(i as int), "processor"@)),
                per_package == last_labelled(all.take(i as int), "cpu cores"@),
                seen.len() == count_distinct(all.take(i as int), "physical id"@),
                seen.len() <= i,
                forall|v: u32|
                    seen@.contains(v) <==> is_given(all.take(i as int), "physical id"@, v as nat),
                if model@.len() > 0 {
                    first_model(all, 0) == model@
                } else {
                    first_model(all, 0) == first_model(all, i as int)
                },
            decreases ls.len() - i,
        {
            let line: &Vec<char> = &ls[i];
            let ghost front = all.take(i as int);
            let ghost more = all.take(i + 1);
            proof {
                assert(more.drop_last() =~= front);
                assert(more.last() == line@);
                assert(all[i as int] == line@);
            }
            if has_prefix(line, &processor) {
                if processors < 0xffff_ffff {
                    processors += 1;
                }
            }
            if model.len() == 0 && has_prefix(line, &model_name) {
                model = match after_colon(line) {
                    Some(v) => v,
                    None => to_chars("Unknown CPU"),
                };
            }
            if let Some(v) = read_labelled(line, &cpu_cores) {
                per_package = v;
            }
            let id: Option<u32> = read_labelled(line, &physical_id);
            let ghost before = seen@;
            if let Some(v) = id {
                if !holds(&seen, v) {
                    seen.push(v);
                }
            }
            proof {
                assert forall|v: u32| seen@.contains(v) <==> is_given(
                    more,
                    "physical id"@,
                    v as nat,
                ) by {
                    if is_given(more, "physical id"@, v as nat) {
                        let k = choose|k: int|
                            0 <= k < more.len() && labelled_number(
                                #[trigger] more[k],
                                "physical id"@,
                            ) == Some(v as nat);
                        if k < i {
                            assert(front[k] == more[k]);
                            assert(is_given(front, "physical id"@, v as nat));
                            assert(before.contains(v));
                            let at = choose|at: int| 0 <= at < before.len() && before[at] == v;
                            assert(seen@[at] == v);
                        } else {
                            assert(id == Some(v));
                            if before.contains(v) {
                                let at = choose|at: int| 0 <= at < before.len() && before[at] == v;
                                assert(seen@[at] == v);
                            } else {
                                assert(seen@[before.len() as int] == v);
                            }
                        }
                    }
                    if seen@.contains(v) {
                        let at = choose|at: int| 0 <= at < seen@.len() && seen@[at] == v;
                        if at < before.len() {
                            assert(before[at] == v);
                            assert(before.contains(v));
                            let k = choose|k: int|
                                0 <= k < front.len() && labelled_number(
                                    #[trigger] front[k],
                                    "physical id"@,
                                ) == Some(v as nat);
                            assert(more[k] == front[k]);
                        } else {
                            assert(id == Some(v));
                            assert(labelled_number(more[i as int], "physical id"@) == Some(
                                v as nat,
                            ));
                        }
                    }
                }
            }
            i += 1;
        }
        proof {
            assert(all.take(i as int) =~= all);
        }
        cpu_info.model = if model.len() > 0 {
            from_chars(&model)
        } else {
            "Unknown CPU".to_owned()
        };
        let packages: usize = seen.len();
        cpu_info.cores = if processors > 0 {
            processors
        } else if per_package > 0 && packages > 0 {
            proof {
                assert(per_package * packages <= 0xffff_ffff * 0xffff_ffff_ffff_ffff) by (nonlinear_arith)
                    requires
                        0 <= per_package <= 0xffff_ffff,
                        0 <= packages <= 0xffff_ffff_ffff_ffff,
                ;
            }
            let product: u128 = (per_package as u128) * (packages as u128);
            if product > 0xffff_ffff {
                0xffff_ffff
            } else {
                product as u32
            }
        } else if per_package > 0 {
            per_package
        } else {
            1
        };
        Ok(())
    }
}

/// The first position at or after `from` at which `pat` occurs in `s`,
/// or the length of `s` where it occurs at none.
pub open spec fn find_from(s: Seq<char>, pat: Seq<char>, from: int) -> int
    decreases s.len() - from,
{
    if from < 0 || from >= s.len() {
        s.len() as int
    } else if occurs_at(s, pat, from) {
        from
    } else {
        find_from(s, pat, from + 1)
    }
}

/// What stands between the first begin mark of `output` and the next
/// begin mark or end mark; empty where it has no begin mark.
pub open spec fn marked_block(output: Seq<char>) -> Seq<char> {
    let first = find_from(output, "__BEGIN__"@, 0);
    if first >= output.len() {
        Seq::empty()
    } else {
        let start = first + 9;
        let inner = output.subrange(start, find_from(output, "__BEGIN__"@, start));
        inner.take(find_from(inner, "__END__"@, 0))
    }
}

/// What is read of `output`: its marked block, or all of it where the
/// block is shorter than ten bytes.
pub open spec fn marked_content(output: Seq<char>) -> Seq<char> {
    if encode_utf8(marked_block(output)).len() < 10 {
        output
    } else {
        marked_block(output)
    }
}

/// The share of user time stated by the first of the parts at or after
/// position `from` that mentions it: what stands before its percent
/// sign, trimmed, where that is a floating-point numeral.
pub open spec fn user_share_in(parts: Seq<Seq<char>>, from: int) -> Option<Seq<char>>
    decreases parts.len() - from,
{
    if from < 0 || from >= parts.len() {
        None
    } else if contains(parts[from], "us"@) {
        let value = trim(fields(parts[from], '%')[0]);
        if is_float_text(value) {
            Some(value)
        } else {
            None
        }
    } else {
        user_share_in(parts, from + 1)
    }
}

/// The share of user time that the lines state, as it stands there.
pub open spec fn user_share(ls: Seq<Seq<char>>) -> Option<Seq<char>> {
    match first_line(ls, LineKind::Usage, 0) {
        Some(line) => user_share_in(fields(line, ','), 0),
        None => None,
    }
}

/// What one combined processor query states beside model and cores, each
/// as a numeral where it is stated.
#[derive(Debug)]
pub struct CpuReadings {
    /// The share of user time, in percent.
    pub usage: Option<String>,
    /// The clock, in megahertz.
    pub frequency: Option<String>,
    /// The temperature, in thousandths of a degree.
    pub temperature: Option<String>,
}

/// The first position at or after `from` at which `pat` occurs in `s`.
fn find_text(s: &Vec<char>, pat: &Vec<char>, from: usize) -> (at: usize)
    requires
        from <= s.len(),
    ensures
        at == find_from(s@, pat@, from as int),
        from <= at <= s.len(),
        at < s.len() ==> at + pat.len() <= s.len(),
{
    let mut at: usize = from;
    while at < s.len()
        invariant
            from <= at <= s.len(),
            find_from(s@, pat@, from as int) == find_from(s@, pat@, at as int),
        decreases s.len() - at,
    {
        if matches_at(s, pat, at) {
            return at;
        }
        at += 1;
    }
    at
}

impl SshDataParser {
    /// Reads the answer of one combined processor query: model and number
    /// of cores go to `cpu_info`, the other readings are handed back as
    /// numerals. Where the answer holds a block of ten bytes or more
    /// between its marks, only the block is read.
    pub fn parse_cpu_info_from_output(output: &str, cpu_info: &mut CpuInfo) -> (result: Result<
        CpuReadings,
        String,
    >)
        ensures
            result is Ok,
            final(cpu_info)@ == (CpuModel {
                model: model_in(lines(marked_content(output@))),
                cores: cores_in(lines(marked_content(output@))) as u32,
            }),
            optional_text(result->Ok_0.usage) == user_share(lines(marked_content(output@))),
            optional_text(result->Ok_0.frequency) == number_in_kind(
                lines(marked_content(output@)),
                LineKind::Frequency,
            ),
            optional_text(result->Ok_0.temperature) == number_in_kind(
                lines(marked_content(output@)),
                LineKind::Reading,
            ),
    {
        let text: Vec<char> = to_chars(output);
        let begin: Vec<char> = to_chars("__BEGIN__");
        let end: Vec<char> = to_chars("__END__");
        proof {
            reveal_strlit("__BEGIN__");
        }
        let first: usize = find_text(&text, &begin, 0);
        let block: Vec<char> = if first >= text.len() {
            Vec::new()
        } else {
            let start: usize = first + 9;
            let next: usize = find_text(&text, &begin, start);
            let inner: Vec<char> = slice(&text, start, next);
            let stop: usize = find_text(&inner, &end, 0);
            let block: Vec<char> = slice(&inner, 0, stop);
            proof {
                assert(block@ =~= inner@.take(stop as int));
            }
            block
        };
        proof {
            assert(block@ =~= marked_block(output@));
        }
        let block_text: String = from_chars(&block);
        let content: Vec<char> = if block_text.as_str().as_bytes().len() < 10 {
            text
        } else {
            block
        };
        proof {
            assert(content@ == marked_content(output@));
        }
        let ls: Vec<Vec<char>> = split_lines(&content);
        cpu_info.model = model_of(&ls);
        cpu_info.cores = cores_of(&ls);
        let usage: Option<String> = match find_line(&ls, LineKind::Usage) {
            None => None,
            Some(i) => {
                let parts: Vec<Vec<char>> = split_fields(&ls[i], ',');
                user_share_of(&parts)
            },
        };
        let frequency: Option<String> = number_among(&ls, LineKind::Frequency);
        let temperature: Option<String> = number_among(&ls, LineKind::Reading);
        Ok(CpuReadings { usage, frequency, temperature })
    }
}

/// The share of user time stated by the first part that mentions it.
fn user_share_of(parts: &Vec<Vec<char>>) -> (share: Option<String>)
    ensures
        optional_text(share) == user_share_in(seqs(parts@), 0),
{
    let us: Vec<char> = to_chars("us");
    let mut i: usize = 0;
    while i < parts.len()
        invariant
            i <= parts.len(),
            us@ == "us"@,
            user_share_in(seqs(parts@), 0) == user_share_in(seqs(parts@), i as int),
        decreases parts.len() - i,
    {
        proof {
            assert(seqs(parts@)[i as int] == parts@[i as int]@);
        }
        if has_substring(&parts[i], &us) {
            let pieces: Vec<Vec<char>> = split_fields(&parts[i], '%');
            proof {
                assert(seqs(pieces@)[0] == pieces@[0]@);
            }
            let value: Vec<char> = trim_of(&pieces[0]);
            return if float_text(&value) {
                Some(from_chars(&value))
            } else {
                None
            };
        }
        i += 1;
    }
    None
}

} // verus!
