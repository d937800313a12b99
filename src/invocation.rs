//! Building the speech tool's command line from a request.

use vstd::prelude::*;

use crate::decimal::{decimal_text, lemma_decimal_text_injective, push_decimal};
use crate::request::GenerationRequest;

verus! {

/// The program that runs the speech tool.
pub open spec fn program_name() -> Seq<char> {
    "python"@
}

/// Name of the directory, under the working directory, that receives the audio files.
pub open spec fn output_subdirectory() -> Seq<char> {
    "audio_output"@
}

/// `name` placed inside `dir`, with a `/` between them unless `dir` is empty
/// or already ends in one.
pub open spec fn join_path(dir: Seq<char>, name: Seq<char>) -> Seq<char> {
    if dir.len() == 0 {
        name
    } else if dir.last() == '/' {
        dir + name
    } else {
        dir + "/"@ + name
    }
}

/// The audio file name derived from a time stamp.
pub open spec fn output_file_name(stamp: int) -> Seq<char> {
    "bark_output_"@ + decimal_text(stamp) + ".wav"@
}

/// The arguments that every invocation carries, in their fixed order.
pub open spec fn base_args(text: Seq<char>, file_name: Seq<char>, dir: Seq<char>) -> Seq<
    Seq<char>,
> {
    seq![
        "-m"@,
        "bark.cli"@,
        "--text"@,
        text,
        "--output_filename"@,
        file_name,
        "--output_dir"@,
        dir,
    ]
}

/// A flag and its value, when the value is present.
pub open spec fn flag_if_present(flag: Seq<char>, value: Option<String>) -> Seq<Seq<char>> {
    match value {
        Some(v) => seq![flag, v@],
        None => Seq::empty(),
    }
}

/// The optional arguments, in their fixed order; absent fields add nothing.
pub open spec fn optional_args(req: GenerationRequest) -> Seq<Seq<char>> {
    flag_if_present("--text_temp"@, req.text_temp) + flag_if_present(
        "--waveform_temp"@,
        req.waveform_temp,
    ) + flag_if_present("--history_prompt"@, req.voice_preset)
}

/// The full argument list for `req`, writing to `dir` under the name taken from `stamp`.
pub open spec fn invocation_args(req: GenerationRequest, dir: Seq<char>, stamp: int) -> Seq<
    Seq<char>,
> {
    base_args(req.text@, output_file_name(stamp), dir) + optional_args(req)
}

/// Position of the time-derived file name in the argument list.
pub open spec fn file_name_slot() -> int {
    5
}

/// The views of a list of strings.
pub open spec fn views(v: Seq<String>) -> Seq<Seq<char>> {
    v.map_values(|s: String| s@)
}

/// How to run the speech tool for one request.
#[derive(Debug)]
pub struct InvocationSpec {
    pub program: String,
    pub args: Vec<String>,
    pub output_dir: String,
    pub output_path: String,
}

/// `spec` is the invocation for `req` in `dir` at `stamp`.
pub open spec fn is_invocation_for(
    spec: InvocationSpec,
    req: GenerationRequest,
    dir: Seq<char>,
    stamp: int,
) -> bool {
    &&& spec.program@ == program_name()
    &&& views(spec.args@) == invocation_args(req, dir, stamp)
    &&& spec.output_dir@ == dir
    &&& spec.output_path@ == join_path(dir, output_file_name(stamp))
}

/// The flags of an argument list: the entries at even positions, each of
/// which is followed by its value.
pub open spec fn flags_of(args: Seq<Seq<char>>) -> Seq<Seq<char>> {
    Seq::new((args.len() / 2) as nat, |i: int| args[2 * i])
}

proof fn lemma_flag_literals()
    ensures
        "-m"@.len() == 2,
        "--text"@.len() == 6,
        "--text_temp"@.len() == 11,
        "--output_dir"@.len() == 12,
        "--waveform_temp"@.len() == 15,
        "--history_prompt"@.len() == 16,
        "--output_filename"@.len() == 17,
{
    reveal_strlit("-m");
    reveal_strlit("--text");
    reveal_strlit("--text_temp");
    reveal_strlit("--output_dir");
    reveal_strlit("--waveform_temp");
    reveal_strlit("--history_prompt");
    reveal_strlit("--output_filename");
}

/// A request with only its text set gives exactly the fixed arguments, and
/// none of the optional flags.
pub proof fn lemma_text_only_args(req: GenerationRequest, dir: Seq<char>, stamp: int)
    requires
        req.voice_preset.is_none(),
        req.text_temp.is_none(),
        req.waveform_temp.is_none(),
    ensures
        invocation_args(req, dir, stamp) == base_args(req.text@, output_file_name(stamp), dir),
        flags_of(invocation_args(req, dir, stamp)) == seq![
            "-m"@,
            "--text"@,
            "--output_filename"@,
            "--output_dir"@,
        ],
        !flags_of(invocation_args(req, dir, stamp)).contains("--text_temp"@),
        !flags_of(invocation_args(req, dir, stamp)).contains("--waveform_temp"@),
        !flags_of(invocation_args(req, dir, stamp)).contains("--history_prompt"@),
{
    let args = invocation_args(req, dir, stamp);
    assert(args =~= base_args(req.text@, output_file_name(stamp), dir));
    let flags = flags_of(args);
    assert(flags =~= seq!["-m"@, "--text"@, "--output_filename"@, "--output_dir"@]);
    lemma_flag_literals();
    assert forall|i: int| 0 <= i < flags.len() implies flags[i] != "--text_temp"@ && flags[i]
        != "--waveform_temp"@ && flags[i] != "--history_prompt"@ by {
        assert(flags[i].len() != 11 && flags[i].len() != 15 && flags[i].len() != 16);
    }
}

/// A request with every optional field set gives the fixed arguments followed
/// by each optional flag and its value, once each, in the fixed order.
pub proof fn lemma_all_optional_args(req: GenerationRequest, dir: Seq<char>, stamp: int)
    requires
        req.voice_preset.is_some(),
        req.text_temp.is_some(),
        req.waveform_temp.is_some(),
    ensures
        invocation_args(req, dir, stamp) == base_args(req.text@, output_file_name(stamp), dir)
            + seq![
            "--text_temp"@,
            req.text_temp.unwrap()@,
            "--waveform_temp"@,
            req.waveform_temp.unwrap()@,
            "--history_prompt"@,
            req.voice_preset.unwrap()@,
        ],
        flags_of(invocation_args(req, dir, stamp)) == seq![
            "-m"@,
            "--text"@,
            "--output_filename"@,
            "--output_dir"@,
            "--text_temp"@,
            "--waveform_temp"@,
            "--history_prompt"@,
        ],
        flags_of(invocation_args(req, dir, stamp)).no_duplicates(),
{
    let args = invocation_args(req, dir, stamp);
    let tail = seq![
        "--text_temp"@,
        req.text_temp.unwrap()@,
        "--waveform_temp"@,
        req.waveform_temp.unwrap()@,
        "--history_prompt"@,
        req.voice_preset.unwrap()@,
    ];
    assert(optional_args(req) =~= tail);
    assert(args =~= base_args(req.text@, output_file_name(stamp), dir) + tail);
    let flags = flags_of(args);
    assert(flags =~= seq![
        "-m"@,
        "--text"@,
        "--output_filename"@,
        "--output_dir"@,
        "--text_temp"@,
        "--waveform_temp"@,
        "--history_prompt"@,
    ]);
    lemma_flag_literals();
    assert forall|i: int, j: int| 0 <= i < flags.len() && 0 <= j < flags.len() && i != j implies flags[i]
        != flags[j] by {
        assert(flags[i].len() != flags[j].len());
    }
}

/// Two invocations for the same request and directory agree on the program,
/// the directory and every argument but the time-derived file name; with the
/// same stamp they agree entirely.
pub proof fn lemma_build_is_deterministic(
    a: InvocationSpec,
    b: InvocationSpec,
    req: GenerationRequest,
    dir: Seq<char>,
    stamp_a: int,
    stamp_b: int,
)
    requires
        is_invocation_for(a, req, dir, stamp_a),
        is_invocation_for(b, req, dir, stamp_b),
    ensures
        a.program@ == b.program@,
        a.output_dir@ == b.output_dir@,
        views(a.args@).len() == views(b.args@).len(),
        forall|i: int|
            0 <= i < views(a.args@).len() && i != file_name_slot() ==> views(a.args@)[i] == views(
                b.args@,
            )[i],
        views(a.args@)[file_name_slot()] == output_file_name(stamp_a),
        stamp_a == stamp_b ==> views(a.args@) == views(b.args@) && a.output_path@
            == b.output_path@,
{
}

/// Distinct stamps give distinct file names, and so distinct output paths
/// within one directory.
pub proof fn lemma_distinct_stamps_distinct_paths(dir: Seq<char>, s1: int, s2: int)
    requires
        s1 != s2,
    ensures
        output_file_name(s1) != output_file_name(s2),
        join_path(dir, output_file_name(s1)) != join_path(dir, output_file_name(s2)),
{
    let p = "bark_output_"@;
    let q = ".wav"@;
    let n1 = output_file_name(s1);
    let n2 = output_file_name(s2);
    if n1 == n2 {
        assert(n1.subrange(p.len() as int, n1.len() - q.len()) =~= decimal_text(s1));
        assert(n2.subrange(p.len() as int, n2.len() - q.len()) =~= decimal_text(s2));
        lemma_decimal_text_injective(s1, s2);
    }
    if join_path(dir, n1) == join_path(dir, n2) && dir.len() > 0 {
        let j1 = join_path(dir, n1);
        let j2 = join_path(dir, n2);
        let k = if dir.last() == '/' {
            dir.len() as int
        } else {
            (dir.len() + "/"@.len()) as int
        };
        assert(j1.subrange(k, j1.len() as int) =~= n1);
        assert(j2.subrange(k, j2.len() as int) =~= n2);
    }
}

/// The output directory inside the working directory `cwd`.
pub fn output_directory(cwd: &str) -> (r: String)
    ensures
        r@ == join_path(cwd@, output_subdirectory()),
{
    path_in(cwd, "audio_output")
}

fn path_in(dir: &str, name: &str) -> (r: String)
    ensures
        r@ == join_path(dir@, name@),
{
    if dir.is_empty() {
        name.to_owned()
    } else if dir.get_char(dir.unicode_len() - 1) == '/' {
        let mut r = dir.to_owned();
        r.append(name);
        r
    } else {
        let mut r = dir.to_owned();
        r.append("/");
        r.append(name);
        r
    }
}

/// The audio file name for `stamp`.
pub fn file_name_for(stamp: i64) -> (r: String)
    ensures
        r@ == output_file_name(stamp as int),
{
    let mut r = "bark_output_".to_owned();
    push_decimal(&mut r, stamp);
    r.append(".wav");
    r
}

fn push_arg(args: &mut Vec<String>, a: &str)
    ensures
        views(final(args)@) == views(old(args)@).push(a@),
{
    args.push(a.to_owned());
    assert(views(args@) =~= views(old(args)@).push(a@));
}

fn push_flag_if_present(args: &mut Vec<String>, flag: &str, value: &Option<String>)
    ensures
        views(final(args)@) == views(old(args)@) + flag_if_present(flag@, *value),
{
    match value {
        Some(v) => {
            push_arg(args, flag);
            push_arg(args, v.as_str());
            assert(views(args@) =~= views(old(args)@) + flag_if_present(flag@, *value));
        },
        None => {
            assert(views(args@) =~= views(old(args)@) + flag_if_present(flag@, *value));
        },
    }
}

/// Builds the invocation for `req`, writing under `dir` with the name taken
/// from `stamp`. The text and the output location always come first; each
/// optional field adds its flag only when present.
pub fn build_invocation(req: &GenerationRequest, dir: &str, stamp: i64) -> (r: InvocationSpec)
    ensures
        is_invocation_for(r, *req, dir@, stamp as int),
{
    let name = file_name_for(stamp);
    let mut args: Vec<String> = Vec::new();
    push_arg(&mut args, "-m");
    push_arg(&mut args, "bark.cli");
    push_arg(&mut args, "--text");
    push_arg(&mut args, req.text.as_str());
    push_arg(&mut args, "--output_filename");
    push_arg(&mut args, name.as_str());
    push_arg(&mut args, "--output_dir");
    push_arg(&mut args, dir);
    assert(views(args@) =~= base_args(req.text@, output_file_name(stamp as int), dir@));
    let ghost base = views(args@);
    push_flag_if_present(&mut args, "--text_temp", &req.text_temp);
    push_flag_if_present(&mut args, "--waveform_temp", &req.waveform_temp);
    push_flag_if_present(&mut args, "--history_prompt", &req.voice_preset);
    assert(views(args@) =~= base + optional_args(*req));
    let output_path = path_in(dir, name.as_str());
    InvocationSpec { program: "python".to_owned(), args, output_dir: dir.to_owned(), output_path }
}

} // verus!
