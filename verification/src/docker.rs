//! Construction of every container-runtime invocation, and the rules
//! around images: where the runtime executable is looked for, how the
//! container is named, which mounts and caps the run gets, and how pull
//! failures are classified into remediation hints.
//!
//! Probing the file system and running the commands is the caller's
//! part; everything decided here is decided from plain values.

use vstd::prelude::*;

use crate::strutil::{
    chars_to_string, spec_has_substring, str_eq, str_has_substring, str_to_chars,
};

verus! {

/// The well-known install locations probed for the container runtime,
/// in order.
pub open spec fn spec_docker_candidates() -> Seq<Seq<char>> {
    seq![
        "/usr/local/bin/docker"@,
        "/opt/homebrew/bin/docker"@,
        "/Applications/Docker.app/Contents/Resources/bin/docker"@,
        "/usr/bin/docker"@,
    ]
}

/// The candidate paths, executably.
pub fn docker_probe_candidates() -> (r: Vec<String>)
    ensures
        r@.len() == spec_docker_candidates().len(),
        forall|i: int|
            0 <= i < r@.len() ==> (#[trigger] r@[i])@ == spec_docker_candidates()[i],
{
    let mut v: Vec<String> = Vec::new();
    v.push(String::from_str("/usr/local/bin/docker"));
    v.push(String::from_str("/opt/homebrew/bin/docker"));
    v.push(String::from_str("/Applications/Docker.app/Contents/Resources/bin/docker"));
    v.push(String::from_str("/usr/bin/docker"));
    v
}

/// The first index whose flag is set, from `i` on.
pub open spec fn spec_first_set(flags: Seq<bool>, i: int) -> Option<int>
    decreases flags.len() - i,
{
    if i < 0 || i >= flags.len() {
        None
    } else if flags[i] {
        Some(i)
    } else {
        spec_first_set(flags, i + 1)
    }
}

/// Whether the `which` probe alone settles the choice: it printed a
/// nonempty path that exists.
pub open spec fn spec_which_settles(which_output: Option<String>, which_exists: bool) -> bool {
    which_output is Some && which_output->0@.len() > 0 && which_exists
}

/// Choose the runtime executable from the probe results: a nonempty
/// `which` result that exists wins; else the first present well-known
/// location; else the bare name, if invoking it worked; else nothing.
pub fn select_docker_executable(
    which_output: Option<String>,
    which_exists: bool,
    candidates_present: &Vec<bool>,
    plain_docker_works: bool,
) -> (r: Option<String>)
    requires
        candidates_present@.len() == spec_docker_candidates().len(),
    ensures
        spec_which_settles(which_output, which_exists) ==> r is Some && r->0@
            == which_output->0@,
        !spec_which_settles(which_output, which_exists) && spec_first_set(
            candidates_present@,
            0,
        ) is Some ==> r is Some && r->0@ == spec_docker_candidates()[spec_first_set(
            candidates_present@,
            0,
        )->0],
        !spec_which_settles(which_output, which_exists) && spec_first_set(
            candidates_present@,
            0,
        ) is None && plain_docker_works ==> r is Some && r->0@ == "docker"@,
        !spec_which_settles(which_output, which_exists) && spec_first_set(
            candidates_present@,
            0,
        ) is None && !plain_docker_works ==> r is None,
{
    let from_which = match &which_output {
        Some(p) => p.as_str().unicode_len() > 0 && which_exists,
        None => false,
    };
    proof {
        assert(from_which == spec_which_settles(which_output, which_exists));
    }
    if from_which {
        match which_output {
            Some(p) => {
                return Some(p);
            },
            None => {
                proof {
                    assert(false);
                }
            },
        }
    }
    let candidates = docker_probe_candidates();
    let n = candidates.len();
    let mut i: usize = 0;
    while i < n
        invariant
            !spec_which_settles(which_output, which_exists),
            n == spec_docker_candidates().len(),
            candidates@.len() == n,
            candidates_present@.len() == n,
            forall|k: int|
                0 <= k < n ==> (#[trigger] candidates@[k])@ == spec_docker_candidates()[k],
            i <= n,
            spec_first_set(candidates_present@, 0) == spec_first_set(
                candidates_present@,
                i as int,
            ),
        decreases n - i,
    {
        if candidates_present[i] {
            proof {
                assert(spec_first_set(candidates_present@, i as int) == Some(i as int));
            }
            let p = candidates[i].clone();
            return Some(p);
        }
        i = i + 1;
    }
    if plain_docker_works {
        Some(String::from_str("docker"))
    } else {
        None
    }
}

/// `run_id` with its dashes removed.
pub open spec fn spec_strip_dashes(s: Seq<char>) -> Seq<char>
    decreases s.len(),
{
    if s.len() == 0 {
        Seq::empty()
    } else if s[0] == '-' {
        spec_strip_dashes(s.drop_first())
    } else {
        seq![s[0]] + spec_strip_dashes(s.drop_first())
    }
}

proof fn lemma_strip_dashes_push(s: Seq<char>, c: char)
    ensures
        spec_strip_dashes(s.push(c)) == spec_strip_dashes(s) + (if c == '-' {
            Seq::<char>::empty()
        } else {
            seq![c]
        }),
    decreases s.len(),
{
    if s.len() == 0 {
        assert(s =~= Seq::<char>::empty());
        assert(s.push(c).drop_first() =~= Seq::<char>::empty());
        assert(spec_strip_dashes(Seq::<char>::empty()) =~= Seq::<char>::empty());
        assert(s.push(c)[0] == c);
        if c == '-' {
            assert(spec_strip_dashes(s.push(c)) =~= spec_strip_dashes(s) + Seq::<char>::empty());
        } else {
            assert(spec_strip_dashes(s.push(c)) =~= spec_strip_dashes(s) + seq![c]);
        }
    } else {
        assert(s.push(c).drop_first() =~= s.drop_first().push(c));
        assert(s.push(c)[0] == s[0]);
        lemma_strip_dashes_push(s.drop_first(), c);
        if c == '-' {
            assert(spec_strip_dashes(s.push(c)) =~= spec_strip_dashes(s) + Seq::<char>::empty());
        } else {
            assert(spec_strip_dashes(s.push(c)) =~= spec_strip_dashes(s) + seq![c]);
        }
    }
}

/// At most the first `n` characters of `s`.
pub open spec fn spec_prefix(s: Seq<char>, n: int) -> Seq<char> {
    if s.len() <= n {
        s
    } else {
        s.subrange(0, n)
    }
}

/// The deterministic container name for a run: a fixed prefix and the
/// first twelve characters of the run id with its dashes removed.
pub open spec fn spec_container_name(run_id: Seq<char>) -> Seq<char> {
    "babushkaml-train-"@ + spec_prefix(spec_strip_dashes(run_id), 12)
}

/// The container name for a run.
pub fn container_name(run_id: &str) -> (r: String)
    ensures
        r@ == spec_container_name(run_id@),
{
    let ch = str_to_chars(run_id);
    let n = ch.len();
    let mut stripped: Vec<char> = Vec::new();
    proof {
        assert(ch@.subrange(0, 0) =~= Seq::<char>::empty());
    }
    let mut i: usize = 0;
    while i < n
        invariant
            ch@ == run_id@,
            n == ch@.len(),
            i <= n,
            stripped@ == spec_strip_dashes(ch@.subrange(0, i as int)),
        decreases n - i,
    {
        let c = ch[i];
        proof {
            assert(ch@.subrange(0, i + 1) =~= ch@.subrange(0, i as int).push(ch@[i as int]));
            lemma_strip_dashes_push(ch@.subrange(0, i as int), ch@[i as int]);
        }
        if c != '-' {
            stripped.push(c);
        }
        proof {
            if c == '-' {
                assert(stripped@ =~= spec_strip_dashes(ch@.subrange(0, i + 1)));
            }
        }
        i = i + 1;
    }
    proof {
        assert(ch@.subrange(0, n as int) =~= ch@);
    }
    stripped.truncate(12);
    proof {
        if spec_strip_dashes(run_id@).len() > 12 {
            assert(stripped@ == spec_prefix(spec_strip_dashes(run_id@), 12));
        }
    }
    String::from_str("babushkaml-train-").concat(chars_to_string(&stripped).as_str())
}

/// A bind-mount argument: `host:container`, with `:ro` when read-only.
pub fn bind_mount(host: &str, container_path: &str, read_only: bool) -> (r: String)
    ensures
        read_only ==> r@ == host@ + ":"@ + container_path@ + ":ro"@,
        !read_only ==> r@ == host@ + ":"@ + container_path@,
{
    let base = String::from_str(host).concat(":").concat(container_path);
    if read_only {
        base.concat(":ro")
    } else {
        base
    }
}

/// The full `repository:tag` image name: an image that already carries a
/// tag is used as it stands, else the tag is appended.
pub fn full_image_name(image: &str, tag: &str) -> (r: String)
    ensures
        spec_has_substring(image@, ":"@) ==> r@ == image@,
        !spec_has_substring(image@, ":"@) ==> r@ == image@ + ":"@ + tag@,
{
    if str_has_substring(image, ":") {
        String::from_str(image)
    } else {
        String::from_str(image).concat(":").concat(tag)
    }
}

/// Whether the exact `repository:tag` name is in the local image list.
pub fn image_in_list(images: &Vec<String>, full_name: &str) -> (r: bool)
    ensures
        r == (exists|i: int| 0 <= i < images@.len() && (#[trigger] images@[i])@ == full_name@),
{
    let n = images.len();
    let mut i: usize = 0;
    while i < n
        invariant
            n == images@.len(),
            i <= n,
            forall|k: int| 0 <= k < i ==> (#[trigger] images@[k])@ != full_name@,
        decreases n - i,
    {
        if str_eq(images[i].as_str(), full_name) {
            return true;
        }
        i = i + 1;
    }
    false
}

/// The kinds of image-pull failure that get a dedicated hint.
#[derive(Debug, Clone, PartialEq, Eq, Structural)]
pub enum PullFailureKind {
    UnknownManifest,
    AccessDenied,
    Other,
}

/// Classify an image-pull failure by the runtime's error text.
pub fn classify_pull_failure(message: &str) -> (r: PullFailureKind)
    ensures
        r == PullFailureKind::UnknownManifest <==> (spec_has_substring(
            message@,
            "manifest unknown"@,
        ) || spec_has_substring(message@, "manifest for"@)),
        r == PullFailureKind::AccessDenied <==> (!spec_has_substring(
            message@,
            "manifest unknown"@,
        ) && !spec_has_substring(message@, "manifest for"@) && (spec_has_substring(
            message@,
            "pull access denied"@,
        ) || spec_has_substring(message@, "repository does not exist"@) || spec_has_substring(
            message@,
            "requested access to the resource is denied"@,
        ))),
{
    if str_has_substring(message, "manifest unknown") || str_has_substring(
        message,
        "manifest for",
    ) {
        PullFailureKind::UnknownManifest
    } else if str_has_substring(message, "pull access denied") || str_has_substring(
        message,
        "repository does not exist",
    ) || str_has_substring(message, "requested access to the resource is denied") {
        PullFailureKind::AccessDenied
    } else {
        PullFailureKind::Other
    }
}

/// The position of the first `:` in `s`, or its length.
pub open spec fn spec_colon_end(s: Seq<char>, i: int) -> int
    decreases s.len() - i,
{
    if i < 0 {
        i
    } else if i < s.len() && s[i] != ':' {
        spec_colon_end(s, i + 1)
    } else {
        i
    }
}

/// The repository part of an image name: everything before the first
/// `:`, or the whole name.
pub open spec fn spec_repo_of(image: Seq<char>) -> Seq<char> {
    image.subrange(0, spec_colon_end(image, 0))
}

proof fn lemma_colon_end_bounds(s: Seq<char>, i: int)
    requires
        0 <= i <= s.len(),
    ensures
        i <= spec_colon_end(s, i) <= s.len(),
    decreases s.len() - i,
{
    if i < s.len() && s[i] != ':' {
        lemma_colon_end_bounds(s, i + 1);
    }
}

/// The repository part of an image name.
pub fn repo_of(image: &str) -> (r: String)
    ensures
        r@ == spec_repo_of(image@),
{
    let ch = str_to_chars(image);
    let n = ch.len();
    let mut i: usize = 0;
    while i < n && ch[i] != ':'
        invariant
            ch@ == image@,
            n == ch@.len(),
            i <= n,
            spec_colon_end(ch@, 0) == spec_colon_end(ch@, i as int),
        decreases n - i,
    {
        i = i + 1;
    }
    proof {
        assert(spec_colon_end(image@, 0) == i as int);
    }
    let repo = crate::strutil::chars_range(&ch, 0, i);
    chars_to_string(&repo)
}

/// The registry page for a repository: user images under `r/`, official
/// ones under `_/`.
pub fn docker_hub_url(repo: &str) -> (r: String)
    ensures
        spec_has_substring(repo@, "/"@) ==> r@ == "https://hub.docker.com/r/"@ + repo@,
        !spec_has_substring(repo@, "/"@) ==> r@ == "https://hub.docker.com/_/"@ + repo@,
{
    if str_has_substring(repo, "/") {
        String::from_str("https://hub.docker.com/r/").concat(repo)
    } else {
        String::from_str("https://hub.docker.com/_/").concat(repo)
    }
}

} // verus!

verus! {

/// The trainer command run inside the container when dependencies are
/// installed first: one shell line that installs the requirements and
/// then starts the trainer.
pub open spec fn spec_install_command(run_id: Seq<char>, has_dataset: bool) -> Seq<char> {
    "pip install --quiet --no-cache-dir -r /app/requirements.txt && python3 /app/runner.py --run-id "@
        + run_id + " --config /app/config.json --output-dir /app/output"@ + (if has_dataset {
        " --dataset /app/dataset"@
    } else {
        Seq::<char>::empty()
    })
}

/// The full argument list of the container invocation: fixed resource
/// caps, a stop grace period, the three standard mounts read-only where
/// the container must not write, the optional dataset, requirements and
/// scripts mounts, GPU passthrough when detected, and the trainer
/// command — through the shell when dependencies are installed first.
pub open spec fn spec_docker_run_args(
    name: Seq<char>,
    config_mount: Seq<char>,
    output_mount: Seq<char>,
    script_mount: Seq<char>,
    dataset_mount: Option<Seq<char>>,
    gpu: bool,
    requirements_mount: Option<Seq<char>>,
    scripts_mount: Option<Seq<char>>,
    image: Seq<char>,
    run_id: Seq<char>,
) -> Seq<Seq<char>> {
    let head = seq![
        "run"@,
        "--rm"@,
        "--name"@,
        name,
        "--memory"@,
        "4g"@,
        "--cpus"@,
        "2.0"@,
        "--stop-timeout"@,
        "30"@,
        "-v"@,
        config_mount,
        "-v"@,
        output_mount,
        "-v"@,
        script_mount,
        "--workdir"@,
        "/app"@,
    ];
    let w_ds = if dataset_mount is Some {
        head + seq!["-v"@, dataset_mount->0]
    } else {
        head
    };
    let w_gpu = if gpu {
        w_ds + seq!["--gpus"@, "all"@]
    } else {
        w_ds
    };
    let w_req = if requirements_mount is Some {
        w_gpu + seq!["-v"@, requirements_mount->0]
    } else {
        w_gpu
    };
    let w_scr = if scripts_mount is Some {
        w_req + seq!["-v"@, scripts_mount->0]
    } else {
        w_req
    };
    let w_img = w_scr + seq![image];
    if requirements_mount is Some {
        w_img + seq!["sh"@, "-c"@, spec_install_command(run_id, dataset_mount is Some)]
    } else {
        let base = w_img + seq![
            "python3"@,
            "/app/runner.py"@,
            "--run-id"@,
            run_id,
            "--config"@,
            "/app/config.json"@,
            "--output-dir"@,
            "/app/output"@,
        ];
        if dataset_mount is Some {
            base + seq!["--dataset"@, "/app/dataset"@]
        } else {
            base
        }
    }
}

/// The view of an optional string slice.
pub open spec fn opt_str_view(o: Option<&str>) -> Option<Seq<char>> {
    match o {
        Some(s) => Some(s@),
        None => None,
    }
}

/// Build the container invocation's argument list.
#[verifier::rlimit(60)]
pub fn docker_run_args(
    name: &str,
    config_mount: &str,
    output_mount: &str,
    script_mount: &str,
    dataset_mount: Option<&str>,
    gpu: bool,
    requirements_mount: Option<&str>,
    scripts_mount: Option<&str>,
    image: &str,
    run_id: &str,
) -> (r: Vec<String>)
    ensures
        crate::strutil::strs_view(r@) == spec_docker_run_args(
            name@,
            config_mount@,
            output_mount@,
            script_mount@,
            opt_str_view(dataset_mount),
            gpu,
            opt_str_view(requirements_mount),
            opt_str_view(scripts_mount),
            image@,
            run_id@,
        ),
{
    let mut v: Vec<String> = Vec::new();
    v.push(String::from_str("run"));
    v.push(String::from_str("--rm"));
    v.push(String::from_str("--name"));
    v.push(String::from_str(name));
    v.push(String::from_str("--memory"));
    v.push(String::from_str("4g"));
    v.push(String::from_str("--cpus"));
    v.push(String::from_str("2.0"));
    v.push(String::from_str("--stop-timeout"));
    v.push(String::from_str("30"));
    v.push(String::from_str("-v"));
    v.push(String::from_str(config_mount));
    v.push(String::from_str("-v"));
    v.push(String::from_str(output_mount));
    v.push(String::from_str("-v"));
    v.push(String::from_str(script_mount));
    v.push(String::from_str("--workdir"));
    v.push(String::from_str("/app"));
    if let Some(d) = dataset_mount {
        v.push(String::from_str("-v"));
        v.push(String::from_str(d));
    }
    if gpu {
        v.push(String::from_str("--gpus"));
        v.push(String::from_str("all"));
    }
    if let Some(q) = requirements_mount {
        v.push(String::from_str("-v"));
        v.push(String::from_str(q));
    }
    if let Some(sc) = scripts_mount {
        v.push(String::from_str("-v"));
        v.push(String::from_str(sc));
    }
    v.push(String::from_str(image));
    if requirements_mount.is_some() {
        v.push(String::from_str("sh"));
        v.push(String::from_str("-c"));
        let mut cmd = String::from_str(
            "pip install --quiet --no-cache-dir -r /app/requirements.txt && python3 /app/runner.py --run-id ",
        ).concat(run_id).concat(" --config /app/config.json --output-dir /app/output");
        if dataset_mount.is_some() {
            cmd = cmd.concat(" --dataset /app/dataset");
        }
        v.push(cmd);
    } else {
        v.push(String::from_str("python3"));
        v.push(String::from_str("/app/runner.py"));
        v.push(String::from_str("--run-id"));
        v.push(String::from_str(run_id));
        v.push(String::from_str("--config"));
        v.push(String::from_str("/app/config.json"));
        v.push(String::from_str("--output-dir"));
        v.push(String::from_str("/app/output"));
        if dataset_mount.is_some() {
            v.push(String::from_str("--dataset"));
            v.push(String::from_str("/app/dataset"));
        }
    }
    proof {
        assert(crate::strutil::strs_view(v@) =~~= spec_docker_run_args(
            name@,
            config_mount@,
            output_mount@,
            script_mount@,
            opt_str_view(dataset_mount),
            gpu,
            opt_str_view(requirements_mount),
            opt_str_view(scripts_mount),
            image@,
            run_id@,
        ));
    }
    v
}

} // verus!

verus! {

/// The right boundary of `s` with trailing whitespace dropped, scanning
/// down from `i`.
pub open spec fn spec_trim_end(s: Seq<char>, i: int) -> int
    decreases i,
{
    if i <= 0 || i > s.len() {
        0
    } else if crate::json::is_ws(s[i - 1]) {
        spec_trim_end(s, i - 1)
    } else {
        i
    }
}

/// `s` with leading and trailing whitespace dropped.
pub open spec fn spec_trim(s: Seq<char>) -> Seq<char> {
    let start = crate::json::spec_ws(s, 0);
    let end = spec_trim_end(s, s.len() as int);
    if start >= end {
        Seq::empty()
    } else {
        s.subrange(start, end)
    }
}

/// One line of the runtime's image listing: the trimmed `repository:tag`
/// name, or nothing for a blank line. The caller applies this to each
/// line of the listing.
pub fn clean_image_line(line: &str) -> (r: Option<String>)
    ensures
        spec_trim(line@).len() == 0 ==> r is None,
        spec_trim(line@).len() > 0 ==> (r matches Some(t) && t@ == spec_trim(line@)),
{
    let ch = str_to_chars(line);
    let n = ch.len();
    let mut e: usize = n;
    while e > 0 && is_trim_ws(ch[e - 1])
        invariant
            ch@ == line@,
            n == ch@.len(),
            e <= n,
            spec_trim_end(ch@, n as int) == spec_trim_end(ch@, e as int),
        decreases e,
    {
        e = e - 1;
    }
    proof {
        assert(spec_trim_end(line@, n as int) == e as int);
    }
    let mut st: usize = 0;
    while st < n && is_trim_ws(ch[st])
        invariant
            ch@ == line@,
            n == ch@.len(),
            st <= n,
            crate::json::spec_ws(ch@, 0) == crate::json::spec_ws(ch@, st as int),
        decreases n - st,
    {
        st = st + 1;
    }
    proof {
        assert(crate::json::spec_ws(line@, 0) == st as int);
    }
    if st >= e {
        None
    } else {
        let t = crate::strutil::chars_range(&ch, st, e);
        Some(chars_to_string(&t))
    }
}

/// The whitespace dropped when trimming, executably.
fn is_trim_ws(c: char) -> (r: bool)
    ensures
        r == crate::json::is_ws(c),
{
    c == ' ' || c == '\t' || c == '\n' || c == '\r'
}

} // verus!
