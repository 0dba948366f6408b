//! Version information and build metadata display.
//!
//! The build metadata (package version, target triple, build profile,
//! enabled features, commit and timestamp) is fixed when the daemon is
//! compiled; the binary hands it to [`VersionInfo::current`].
use vstd::prelude::*;

use crate::capitalization::{free_of, lemma_join_free};
use crate::text;

verus! {

/// Comprehensive version information for swictation.
pub struct VersionInfo {
    /// Package version from Cargo.toml
    pub daemon_version: &'static str,
    /// ONNX Runtime version
    pub ort_version: &'static str,
    /// Target triple (e.g., x86_64-unknown-linux-gnu)
    pub target: &'static str,
    /// Build profile (debug or release)
    pub profile: &'static str,
    /// Enabled features
    pub features: Vec<&'static str>,
    /// Git commit hash (if available)
    pub git_commit: Option<&'static str>,
    /// Build timestamp
    pub build_timestamp: &'static str,
}

pub open spec fn str_views(v: Seq<&'static str>) -> Seq<Seq<char>> {
    v.map_values(|s: &'static str| s@)
}

/// The models this build can run.
pub open spec fn model_list() -> Seq<Seq<char>> {
    seq!["Parakeet-TDT-0.6B-V3 (ONNX)"@, "Parakeet-TDT-1.1B-V3 (ONNX)"@]
}

/// The GPU libraries this build supports.
pub open spec fn gpu_library_list() -> Seq<Seq<char>> {
    seq![
        "CUDA 11.8 + cuDNN 8.9.7 (Maxwell/Pascal/Volta)"@,
        "CUDA 12.9 + cuDNN 9.15.1 (Turing/Ampere/Ada/Hopper/Blackwell)"@,
    ]
}

/// The bulleted line of one item.
pub open spec fn bullet_line(item: Seq<char>) -> Seq<char> {
    "  \u{2022} "@ + item + "\n"@
}

/// One bulleted line per item.
pub open spec fn bullets(items: Seq<Seq<char>>) -> Seq<char>
    decreases items.len(),
{
    if items.len() == 0 {
        seq![]
    } else {
        bullets(items.drop_last()) + bullet_line(items.last())
    }
}

/// The report's first lines: the version and the build information that
/// every build has.
pub open spec fn report_head(info: VersionInfo) -> Seq<char> {
    "swictation-daemon "@ + info.daemon_version@ + "\n"@ + "\n"@ + "Build Information:\n"@
        + "  ONNX Runtime: "@ + info.ort_version@ + "\n"@ + "  Target:       "@ + info.target@
        + "\n"@ + "  Profile:      "@ + info.profile@ + "\n"@ + "  Build Date:   "@
        + info.build_timestamp@ + "\n"@
}

/// The commit line, when the commit is known.
pub open spec fn commit_line(info: VersionInfo) -> Seq<char> {
    match info.git_commit {
        Some(c) => "  Git Commit:   "@ + c@ + "\n"@,
        None => seq![],
    }
}

/// The features line, when features are enabled.
pub open spec fn features_line(info: VersionInfo) -> Seq<char> {
    if info.features@.len() > 0 {
        "  Features:     "@ + text::join(str_views(info.features@), ", "@) + "\n"@
    } else {
        seq![]
    }
}

/// The compatibility lists that end the report.
pub open spec fn report_tail() -> Seq<char> {
    "\n"@ + "Model Compatibility:\n"@ + bullets(model_list()) + "\n"@ + "GPU Libraries:\n"@
        + bullets(gpu_library_list())
}

/// The multi-line report of a [`VersionInfo`].
pub open spec fn version_report(info: VersionInfo) -> Seq<char> {
    report_head(info) + commit_line(info) + features_line(info) + report_tail()
}

fn push_str(out: &mut Vec<char>, s: &str)
    ensures
        final(out)@ == old(out)@ + s@,
{
    let c = text::chars_of(s);
    text::extend_chars(out, c.as_slice());
}

fn push_bullets(out: &mut Vec<char>, items: &Vec<&'static str>)
    ensures
        final(out)@ == old(out)@ + bullets(str_views(items@)),
{
    let mut i: usize = 0;
    while i < items.len()
        invariant
            i <= items@.len(),
            out@ == old(out)@ + bullets(str_views(items@.take(i as int))),
        decreases items@.len() - i,
    {
        let ghost before = out@;
        push_str(out, "  \u{2022} ");
        push_str(out, items[i]);
        push_str(out, "\n");
        proof {
            let t = str_views(items@.take(i + 1));
            assert(t.drop_last() =~= str_views(items@.take(i as int)));
            assert(t.last() == items@[i as int]@);
            assert(out@ =~= old(out)@ + bullets(t));
        }
        i = i + 1;
    }
    assert(items@.take(items@.len() as int) =~= items@);
}

impl VersionInfo {
    /// Version information for this build, from its compile-time metadata;
    /// the profile is "debug" when debug assertions are enabled and
    /// "release" otherwise.
    pub fn current(
        daemon_version: &'static str,
        ort_version: &'static str,
        target: &'static str,
        debug_assertions: bool,
        features: Vec<&'static str>,
        git_commit: Option<&'static str>,
        build_timestamp: &'static str,
    ) -> (r: Self)
        ensures
            r.daemon_version == daemon_version,
            r.ort_version == ort_version,
            r.target == target,
            r.profile@ == (if debug_assertions {
                "debug"@
            } else {
                "release"@
            }),
            r.features@ == features@,
            r.git_commit == git_commit,
            r.build_timestamp == build_timestamp,
    {
        VersionInfo {
            daemon_version,
            ort_version,
            target,
            profile: if debug_assertions {
                "debug"
            } else {
                "release"
            },
            features,
            git_commit,
            build_timestamp,
        }
    }

    /// Model compatibility information.
    pub fn model_compatibility(&self) -> (r: Vec<&'static str>)
        ensures
            str_views(r@) == model_list(),
    {
        let r = vec!["Parakeet-TDT-0.6B-V3 (ONNX)", "Parakeet-TDT-1.1B-V3 (ONNX)"];
        assert(str_views(r@) =~= model_list());
        r
    }

    /// GPU library compatibility.
    pub fn gpu_libraries(&self) -> (r: Vec<&'static str>)
        ensures
            str_views(r@) == gpu_library_list(),
    {
        let r = vec![
            "CUDA 11.8 + cuDNN 8.9.7 (Maxwell/Pascal/Volta)",
            "CUDA 12.9 + cuDNN 9.15.1 (Turing/Ampere/Ada/Hopper/Blackwell)",
        ];
        assert(str_views(r@) =~= gpu_library_list());
        r
    }

    /// The multi-line report shown by `--version-info`.
    pub fn render(&self) -> (r: String)
        ensures
            r@ == version_report(*self),
    {
        let mut out: Vec<char> = Vec::new();
        push_str(&mut out, "swictation-daemon ");
        push_str(&mut out, self.daemon_version);
        push_str(&mut out, "\n");
        push_str(&mut out, "\n");
        push_str(&mut out, "Build Information:\n");
        push_str(&mut out, "  ONNX Runtime: ");
        push_str(&mut out, self.ort_version);
        push_str(&mut out, "\n");
        push_str(&mut out, "  Target:       ");
        push_str(&mut out, self.target);
        push_str(&mut out, "\n");
        push_str(&mut out, "  Profile:      ");
        push_str(&mut out, self.profile);
        push_str(&mut out, "\n");
        push_str(&mut out, "  Build Date:   ");
        push_str(&mut out, self.build_timestamp);
        push_str(&mut out, "\n");
        match self.git_commit {
            Some(commit) => {
                push_str(&mut out, "  Git Commit:   ");
                push_str(&mut out, commit);
                push_str(&mut out, "\n");
            },
            None => {},
        }
        if self.features.len() > 0 {
            push_str(&mut out, "  Features:     ");
            let mut parts: Vec<Vec<char>> = Vec::new();
            let mut i: usize = 0;
            while i < self.features.len()
                invariant
                    i <= self.features@.len(),
                    text::seqs_of(parts@) == str_views(self.features@.take(i as int)),
                decreases self.features@.len() - i,
            {
                let p = text::chars_of(self.features[i]);
                proof {
                    text::lemma_seqs_of_push(parts@, p);
                }
                parts.push(p);
                assert(str_views(self.features@.take(i + 1)) =~= str_views(
                    self.features@.take(i as int),
                ).push(self.features@[i as int]@));
                i = i + 1;
            }
            assert(self.features@.take(self.features@.len() as int) =~= self.features@);
            let sep = text::chars_of(", ");
            let joined = text::join_chars(&parts, sep.as_slice());
            text::extend_chars(&mut out, joined.as_slice());
            push_str(&mut out, "\n");
        }
        push_str(&mut out, "\n");
        push_str(&mut out, "Model Compatibility:\n");
        let models = self.model_compatibility();
        push_bullets(&mut out, &models);
        push_str(&mut out, "\n");
        push_str(&mut out, "GPU Libraries:\n");
        let libs = self.gpu_libraries();
        push_bullets(&mut out, &libs);
        text::string_of(out.as_slice())
    }
}

/// The short version string (for `--version`): `swictation-daemon <version>`.
pub fn version_short(daemon_version: &str) -> (r: String)
    ensures
        r@ == "swictation-daemon "@ + daemon_version@,
{
    let mut out = text::chars_of("swictation-daemon ");
    push_str(&mut out, daemon_version);
    text::string_of(out.as_slice())
}

/// The long version string (for `--version-info`): the full report.
pub fn version_long(info: &VersionInfo) -> (r: String)
    ensures
        r@ == version_report(*info),
{
    info.render()
}

proof fn lemma_contains_in(s: Seq<char>, a: Seq<char>, b: Seq<char>, c: Seq<char>, p: Seq<char>)
    requires
        s == a + b + c,
        text::contains_seq(b, p),
    ensures
        text::contains_seq(s, p),
{
    let i = choose|i: int| 0 <= i && i + p.len() <= b.len() && #[trigger] b.subrange(i, i + p.len()) == p;
    assert(s.subrange(a.len() + i, a.len() + i + p.len()) =~= b.subrange(i, i + p.len()));
}

proof fn lemma_contains_self(p: Seq<char>)
    ensures
        text::contains_seq(p, p),
{
    let z: int = 0;
    assert(p.subrange(z, z + p.len()) =~= p);
}

proof fn lemma_bullets_split(items: Seq<Seq<char>>)
    requires
        items.len() > 0,
    ensures
        bullets(items) == bullets(items.drop_last()) + bullet_line(items.last()) + Seq::<char>::empty(),
        bullets(items) == Seq::<char>::empty() + bullets(items.drop_last()) + bullet_line(items.last()),
{
    assert(bullets(items) =~= bullets(items.drop_last()) + bullet_line(items.last()) + Seq::<char>::empty());
    assert(bullets(items) =~= Seq::<char>::empty() + bullets(items.drop_last()) + bullet_line(items.last()));
}

proof fn lemma_bullets_contain(items: Seq<Seq<char>>, k: int)
    requires
        0 <= k < items.len(),
    ensures
        text::contains_seq(bullets(items), bullet_line(items[k])),
    decreases items.len(),
{
    lemma_bullets_split(items);
    if k == items.len() - 1 {
        lemma_contains_self(bullet_line(items[k]));
        lemma_contains_in(
            bullets(items),
            bullets(items.drop_last()),
            bullet_line(items[k]),
            Seq::<char>::empty(),
            bullet_line(items[k]),
        );
    } else {
        lemma_bullets_contain(items.drop_last(), k);
        assert(items.drop_last()[k] == items[k]);
        lemma_contains_in(
            bullets(items),
            Seq::<char>::empty(),
            bullets(items.drop_last()),
            bullet_line(items.last()),
            bullet_line(items[k]),
        );
    }
}

proof fn lemma_report_pieces(info: VersionInfo)
    ensures
        version_report(info) == report_head(info) + commit_line(info) + (features_line(info)
            + report_tail()),
        version_report(info) == (report_head(info) + commit_line(info)) + features_line(info)
            + report_tail(),
        version_report(info) == (report_head(info) + commit_line(info) + features_line(info) + "\n"@
            + "Model Compatibility:\n"@) + bullets(model_list()) + ("\n"@ + "GPU Libraries:\n"@
            + bullets(gpu_library_list())),
        version_report(info) == (report_head(info) + commit_line(info) + features_line(info) + "\n"@
            + "Model Compatibility:\n"@ + bullets(model_list()) + "\n"@ + "GPU Libraries:\n"@)
            + bullets(gpu_library_list()) + Seq::<char>::empty(),
        text::starts_with(
            version_report(info),
            "swictation-daemon "@ + info.daemon_version@ + "\n"@ + "\n"@ + "Build Information:\n"@,
        ),
{
    let r = version_report(info);
    assert(r =~= report_head(info) + commit_line(info) + (features_line(info) + report_tail()));
    assert(r =~= (report_head(info) + commit_line(info) + features_line(info) + "\n"@
        + "Model Compatibility:\n"@) + bullets(model_list()) + ("\n"@ + "GPU Libraries:\n"@
        + bullets(gpu_library_list())));
    assert(r =~= (report_head(info) + commit_line(info) + features_line(info) + "\n"@
        + "Model Compatibility:\n"@ + bullets(model_list()) + "\n"@ + "GPU Libraries:\n"@)
        + bullets(gpu_library_list()) + Seq::<char>::empty());
    let pre = "swictation-daemon "@ + info.daemon_version@ + "\n"@ + "\n"@ + "Build Information:\n"@;
    assert(r.take(pre.len() as int) =~= pre);
}

/// The long report starts with the short version string followed by the
/// build information heading; it has the commit line when the commit is
/// known, the features line when features are enabled, and one bullet line
/// for each compatible model and each supported GPU library.
pub proof fn lemma_long_report_layout(info: VersionInfo)
    ensures
        text::starts_with(
            version_report(info),
            "swictation-daemon "@ + info.daemon_version@ + "\n"@ + "\n"@ + "Build Information:\n"@,
        ),
        info.git_commit matches Some(c) ==> text::contains_seq(
            version_report(info),
            "  Git Commit:   "@ + c@ + "\n"@,
        ),
        info.features@.len() > 0 ==> text::contains_seq(
            version_report(info),
            "  Features:     "@ + text::join(str_views(info.features@), ", "@) + "\n"@,
        ),
        forall|k: int|
            0 <= k < model_list().len() ==> text::contains_seq(
                version_report(info),
                bullet_line(#[trigger] model_list()[k]),
            ),
        forall|k: int|
            0 <= k < gpu_library_list().len() ==> text::contains_seq(
                version_report(info),
                bullet_line(#[trigger] gpu_library_list()[k]),
            ),
{
    let r = version_report(info);
    lemma_report_pieces(info);
    if info.git_commit is Some {
        lemma_contains_self(commit_line(info));
        lemma_contains_in(
            r,
            report_head(info),
            commit_line(info),
            features_line(info) + report_tail(),
            commit_line(info),
        );
    }
    if info.features@.len() > 0 {
        lemma_contains_self(features_line(info));
        lemma_contains_in(
            r,
            report_head(info) + commit_line(info),
            features_line(info),
            report_tail(),
            features_line(info),
        );
    }
    assert forall|k: int| 0 <= k < model_list().len() implies text::contains_seq(
        r,
        bullet_line(#[trigger] model_list()[k]),
    ) by {
        lemma_bullets_contain(model_list(), k);
        lemma_contains_in(
            r,
            report_head(info) + commit_line(info) + features_line(info) + "\n"@
                + "Model Compatibility:\n"@,
            bullets(model_list()),
            "\n"@ + "GPU Libraries:\n"@ + bullets(gpu_library_list()),
            bullet_line(model_list()[k]),
        );
    }
    assert forall|k: int| 0 <= k < gpu_library_list().len() implies text::contains_seq(
        r,
        bullet_line(#[trigger] gpu_library_list()[k]),
    ) by {
        lemma_bullets_contain(gpu_library_list(), k);
        lemma_contains_in(
            r,
            report_head(info) + commit_line(info) + features_line(info) + "\n"@
                + "Model Compatibility:\n"@ + bullets(model_list()) + "\n"@ + "GPU Libraries:\n"@,
            bullets(gpu_library_list()),
            Seq::<char>::empty(),
            bullet_line(gpu_library_list()[k]),
        );
    }
}

// ---------------------------------------------------------------------------
// The report as lines
// ---------------------------------------------------------------------------

/// Lines, each followed by a line break.
pub open spec fn lines_text(ls: Seq<Seq<char>>) -> Seq<char>
    decreases ls.len(),
{
    if ls.len() == 0 {
        seq![]
    } else {
        ls[0] + seq!['\n'] + lines_text(ls.drop_first())
    }
}

/// `r` has the line `l`: `l` stands between two line breaks, or at the
/// start of `r` before one.
pub open spec fn has_line(r: Seq<char>, l: Seq<char>) -> bool {
    text::contains_seq(seq!['\n'] + r, seq!['\n'] + l + seq!['\n'])
}

/// `r` has a line that starts with `p`.
pub open spec fn has_line_starting(r: Seq<char>, p: Seq<char>) -> bool {
    text::contains_seq(seq!['\n'] + r, seq!['\n'] + p)
}

/// The bullet of one item, without its line break.
pub open spec fn bullet_text(item: Seq<char>) -> Seq<char> {
    "  \u{2022} "@ + item
}

/// The lines of the report's head.
pub open spec fn head_lines(info: VersionInfo) -> Seq<Seq<char>> {
    seq![
        "swictation-daemon "@ + info.daemon_version@,
        Seq::<char>::empty(),
        "Build Information:"@,
        "  ONNX Runtime: "@ + info.ort_version@,
        "  Target:       "@ + info.target@,
        "  Profile:      "@ + info.profile@,
        "  Build Date:   "@ + info.build_timestamp@,
    ]
}

/// The commit line, when the commit is known.
pub open spec fn commit_lines(info: VersionInfo) -> Seq<Seq<char>> {
    match info.git_commit {
        Some(c) => seq!["  Git Commit:   "@ + c@],
        None => seq![],
    }
}

/// The features line, when features are enabled.
pub open spec fn features_lines(info: VersionInfo) -> Seq<Seq<char>> {
    if info.features@.len() > 0 {
        seq!["  Features:     "@ + text::join(str_views(info.features@), ", "@)]
    } else {
        seq![]
    }
}

/// The lines of the report.
pub open spec fn report_lines(info: VersionInfo) -> Seq<Seq<char>> {
    head_lines(info) + commit_lines(info) + features_lines(info) + seq![
        Seq::<char>::empty(),
        "Model Compatibility:"@,
    ] + model_list().map_values(|x: Seq<char>| bullet_text(x)) + seq![
        Seq::<char>::empty(),
        "GPU Libraries:"@,
    ] + gpu_library_list().map_values(|x: Seq<char>| bullet_text(x))
}

proof fn lemma_lines_text_add(a: Seq<Seq<char>>, b: Seq<Seq<char>>)
    ensures
        lines_text(a + b) == lines_text(a) + lines_text(b),
    decreases a.len(),
{
    if a.len() > 0 {
        lemma_lines_text_add(a.drop_first(), b);
        assert((a + b).drop_first() =~= a.drop_first() + b);
        assert((a + b)[0] == a[0]);
        assert(lines_text(a + b) =~= lines_text(a) + lines_text(b));
    } else {
        assert(a + b =~= b);
    }
}

proof fn lemma_lines_text_one(l: Seq<char>)
    ensures
        lines_text(seq![l]) == l + seq!['\n'],
{
    let one = seq![l];
    assert(one.drop_first() =~= Seq::<Seq<char>>::empty());
    assert(one[0] == l);
    assert(lines_text(one.drop_first()) == Seq::<char>::empty());
    assert(lines_text(one) == one[0] + seq!['\n'] + lines_text(one.drop_first()));
    assert(lines_text(one) =~= l + seq!['\n']);
}

proof fn lemma_bullets_as_lines(items: Seq<Seq<char>>)
    ensures
        bullets(items) == lines_text(items.map_values(|x: Seq<char>| bullet_text(x))),
    decreases items.len(),
{
    reveal_strlit("\n");
    if items.len() > 0 {
        lemma_bullets_as_lines(items.drop_last());
        let m = items.map_values(|x: Seq<char>| bullet_text(x));
        let md = items.drop_last().map_values(|x: Seq<char>| bullet_text(x));
        assert(m =~= md + seq![bullet_text(items.last())]);
        lemma_lines_text_add(md, seq![bullet_text(items.last())]);
        lemma_lines_text_one(bullet_text(items.last()));
        assert(bullet_line(items.last()) =~= bullet_text(items.last()) + seq!['\n']);
    } else {
        assert(items.map_values(|x: Seq<char>| bullet_text(x)) =~= Seq::<Seq<char>>::empty());
    }
}

proof fn lemma_lines_text_push(ls: Seq<Seq<char>>, l: Seq<char>)
    ensures
        lines_text(ls.push(l)) == lines_text(ls) + l + seq!['\n'],
{
    lemma_lines_text_add(ls, seq![l]);
    lemma_lines_text_one(l);
    assert(ls.push(l) =~= ls + seq![l]);
    assert(lines_text(ls) + (l + seq!['\n']) =~= lines_text(ls) + l + seq!['\n']);
}

#[verifier::rlimit(40)]
proof fn lemma_head_as_lines(info: VersionInfo)
    ensures
        report_head(info) == lines_text(head_lines(info)),
{
    reveal_strlit("\n");
    reveal_strlit("Build Information:\n");
    reveal_strlit("Build Information:");
    let h = head_lines(info);
    let e = Seq::<Seq<char>>::empty();
    assert(lines_text(e) == Seq::<char>::empty());
    lemma_lines_text_push(e, h[0]);
    lemma_lines_text_push(e.push(h[0]), h[1]);
    lemma_lines_text_push(e.push(h[0]).push(h[1]), h[2]);
    lemma_lines_text_push(e.push(h[0]).push(h[1]).push(h[2]), h[3]);
    lemma_lines_text_push(e.push(h[0]).push(h[1]).push(h[2]).push(h[3]), h[4]);
    lemma_lines_text_push(e.push(h[0]).push(h[1]).push(h[2]).push(h[3]).push(h[4]), h[5]);
    lemma_lines_text_push(e.push(h[0]).push(h[1]).push(h[2]).push(h[3]).push(h[4]).push(h[5]), h[6]);
    assert(h =~= e.push(h[0]).push(h[1]).push(h[2]).push(h[3]).push(h[4]).push(h[5]).push(h[6]));
    assert("Build Information:\n"@ =~= "Build Information:"@ + seq!['\n']);
    assert(report_head(info) =~= lines_text(h));
}

/// The lines of the report's compatibility lists.
pub open spec fn tail_lines() -> Seq<Seq<char>> {
    seq![Seq::<char>::empty(), "Model Compatibility:"@] + model_list().map_values(
        |x: Seq<char>| bullet_text(x),
    ) + seq![Seq::<char>::empty(), "GPU Libraries:"@] + gpu_library_list().map_values(
        |x: Seq<char>| bullet_text(x),
    )
}

proof fn lemma_two_lines(a: Seq<char>, b: Seq<char>)
    ensures
        lines_text(seq![a, b]) == a + seq!['\n'] + b + seq!['\n'],
{
    let e = Seq::<Seq<char>>::empty();
    assert(lines_text(e) == Seq::<char>::empty());
    lemma_lines_text_push(e, a);
    lemma_lines_text_push(e.push(a), b);
    assert(seq![a, b] =~= e.push(a).push(b));
    assert(lines_text(seq![a, b]) =~= a + seq!['\n'] + b + seq!['\n']);
}

#[verifier::rlimit(40)]
proof fn lemma_tail_as_lines()
    ensures
        report_tail() == lines_text(tail_lines()),
{
    reveal_strlit("\n");
    reveal_strlit("Model Compatibility:\n");
    reveal_strlit("Model Compatibility:");
    reveal_strlit("GPU Libraries:\n");
    reveal_strlit("GPU Libraries:");
    let d = seq![Seq::<char>::empty(), "Model Compatibility:"@];
    let e = model_list().map_values(|x: Seq<char>| bullet_text(x));
    let f = seq![Seq::<char>::empty(), "GPU Libraries:"@];
    let g = gpu_library_list().map_values(|x: Seq<char>| bullet_text(x));
    lemma_lines_text_add(d, e);
    lemma_lines_text_add(d + e, f);
    lemma_lines_text_add(d + e + f, g);
    lemma_bullets_as_lines(model_list());
    lemma_bullets_as_lines(gpu_library_list());
    lemma_two_lines(Seq::<char>::empty(), "Model Compatibility:"@);
    lemma_two_lines(Seq::<char>::empty(), "GPU Libraries:"@);
    assert("Model Compatibility:\n"@ =~= "Model Compatibility:"@ + seq!['\n']);
    assert("GPU Libraries:\n"@ =~= "GPU Libraries:"@ + seq!['\n']);
    assert(report_tail() =~= lines_text(tail_lines()));
}

proof fn lemma_options_as_lines(info: VersionInfo)
    ensures
        commit_line(info) == lines_text(commit_lines(info)),
        features_line(info) == lines_text(features_lines(info)),
{
    reveal_strlit("\n");
    if let Some(cm) = info.git_commit {
        lemma_lines_text_one("  Git Commit:   "@ + cm@);
        assert(commit_line(info) =~= lines_text(commit_lines(info)));
    }
    if info.features@.len() > 0 {
        lemma_lines_text_one("  Features:     "@ + text::join(str_views(info.features@), ", "@));
        assert(features_line(info) =~= lines_text(features_lines(info)));
    }
}

/// The report is its lines, each followed by a line break.
proof fn lemma_report_as_lines(info: VersionInfo)
    ensures
        version_report(info) == lines_text(report_lines(info)),
{
    let a = head_lines(info);
    let b = commit_lines(info);
    let c = features_lines(info);
    let t = tail_lines();
    lemma_head_as_lines(info);
    lemma_tail_as_lines();
    lemma_options_as_lines(info);
    lemma_lines_text_add(a, b);
    lemma_lines_text_add(a + b, c);
    lemma_lines_text_add(a + b + c, t);
    assert(report_lines(info) =~= a + b + c + t);
}

proof fn lemma_occurrence_in_lines(ls: Seq<Seq<char>>, p: Seq<char>, i: int)
    requires
        p.len() > 0,
        free_of(p, '\n'),
        forall|t: int| 0 <= t < ls.len() ==> free_of(#[trigger] ls[t], '\n'),
        0 <= i,
        i + 1 + p.len() <= 1 + lines_text(ls).len(),
        (seq!['\n'] + lines_text(ls)).subrange(i, i + 1 + p.len()) == seq!['\n'] + p,
    ensures
        exists|t: int|
            0 <= t < ls.len() && text::starts_with(#[trigger] ls[t], p) && ((i + 1 + p.len() < 1
                + lines_text(ls).len() && (seq!['\n'] + lines_text(ls))[i + 1 + p.len()] == '\n')
                ==> ls[t].len() == p.len()),
    decreases ls.len(),
{
    let full = seq!['\n'] + lines_text(ls);
    let occ = full.subrange(i, i + 1 + p.len());
    if ls.len() == 0 {
        assert(lines_text(ls).len() == 0);
    } else {
        let rest = ls.drop_first();
        let fr = seq!['\n'] + lines_text(rest);
        let l0 = ls[0];
        let a = l0.len() as int;
        assert(full =~= seq!['\n'] + l0 + fr);
        assert(free_of(l0, '\n'));
        if i == 0 {
            if p.len() <= a {
                assert forall|k: int| 0 <= k < p.len() implies l0[k] == p[k] by {
                    assert(full[1 + k] == l0[k]);
                    assert(occ[1 + k] == full[1 + k]);
                    assert((seq!['\n'] + p)[1 + k] == p[k]);
                }
                assert(l0.take(p.len() as int) =~= p);
                if i + 1 + p.len() < full.len() && full[i + 1 + p.len()] == '\n' && p.len() < a {
                    assert(full[1 + p.len() as int] == l0[p.len() as int]);
                }
                assert(text::starts_with(ls[0], p));
            } else {
                assert(full[1 + a] == '\n');
                assert(occ[1 + a] == full[1 + a]);
                assert((seq!['\n'] + p)[1 + a] == p[a]);
            }
        } else if i <= a {
            assert(full[i] == l0[i - 1]);
            assert(occ[0] == full[i]);
            assert((seq!['\n'] + p)[0] == '\n');
        } else {
            let j = i - (a + 1);
            assert(occ =~= fr.subrange(j, j + 1 + p.len()));
            assert forall|t: int| 0 <= t < rest.len() implies free_of(#[trigger] rest[t], '\n') by {
                assert(rest[t] == ls[t + 1]);
            }
            lemma_occurrence_in_lines(rest, p, j);
            let t0 = choose|t: int|
                0 <= t < rest.len() && text::starts_with(#[trigger] rest[t], p) && ((j + 1 + p.len() < 1
                    + lines_text(rest).len() && (seq!['\n'] + lines_text(rest))[j + 1 + p.len()] == '\n')
                    ==> rest[t].len() == p.len());
            assert(rest[t0] == ls[t0 + 1]);
            if i + 1 + p.len() < full.len() {
                assert(full[i + 1 + p.len()] == fr[j + 1 + p.len()]);
            }
            assert(text::starts_with(ls[t0 + 1], p));
        }
    }
}

proof fn lemma_contains_prefix(x: Seq<char>, y: Seq<char>)
    ensures
        text::contains_seq(x + y, x),
{
    let z: int = 0;
    assert((x + y).subrange(z, z + x.len()) =~= x);
}

proof fn lemma_contains_after(pre: Seq<char>, y: Seq<char>, p: Seq<char>)
    requires
        text::contains_seq(y, p),
    ensures
        text::contains_seq(pre + y, p),
{
    let i = choose|i: int| 0 <= i && i + p.len() <= y.len() && #[trigger] y.subrange(i, i + p.len()) == p;
    assert((pre + y).subrange(pre.len() + i, pre.len() + i + p.len()) =~= y.subrange(i, i + p.len()));
}

proof fn lemma_each_line_occurs(ls: Seq<Seq<char>>, t: int)
    requires
        0 <= t < ls.len(),
    ensures
        text::contains_seq(seq!['\n'] + lines_text(ls), seq!['\n'] + ls[t] + seq!['\n']),
    decreases ls.len(),
{
    let rest = ls.drop_first();
    let fr = seq!['\n'] + lines_text(rest);
    let full = seq!['\n'] + lines_text(ls);
    assert(lines_text(ls) == ls[0] + seq!['\n'] + lines_text(rest));
    if t == 0 {
        let x = seq!['\n'] + ls[0] + seq!['\n'];
        assert(full =~= x + lines_text(rest));
        lemma_contains_prefix(x, lines_text(rest));
    } else {
        lemma_each_line_occurs(rest, t - 1);
        assert(rest[t - 1] == ls[t]);
        assert(full =~= (seq!['\n'] + ls[0]) + fr);
        lemma_contains_after(seq!['\n'] + ls[0], fr, seq!['\n'] + ls[t] + seq!['\n']);
    }
}

/// The bulleted lines of the report: one per compatible model and one per
/// supported GPU library.
pub open spec fn is_bullet(l: Seq<char>) -> bool {
    model_list().map_values(|x: Seq<char>| bullet_text(x)).contains(l)
        || gpu_library_list().map_values(|x: Seq<char>| bullet_text(x)).contains(l)
}

/// What a line of the report says about the build, by how it starts.
pub open spec fn line_ok(l: Seq<char>, info: VersionInfo) -> bool {
    &&& text::starts_with(l, "  Git Commit:   "@) ==> info.git_commit is Some
    &&& text::starts_with(l, "  Features:"@) ==> info.features@.len() > 0
    &&& text::starts_with(l, "  \u{2022} "@) ==> is_bullet(l)
}

pub open spec fn all_lines_ok(ls: Seq<Seq<char>>, info: VersionInfo) -> bool {
    forall|t: int| 0 <= t < ls.len() ==> line_ok(#[trigger] ls[t], info)
}

pub open spec fn all_lines_free(ls: Seq<Seq<char>>) -> bool {
    forall|t: int| 0 <= t < ls.len() ==> free_of(#[trigger] ls[t], '\n')
}

/// None of the build metadata holds a line break.
pub open spec fn single_line_fields(info: VersionInfo) -> bool {
    &&& free_of(info.daemon_version@, '\n')
    &&& free_of(info.ort_version@, '\n')
    &&& free_of(info.target@, '\n')
    &&& free_of(info.profile@, '\n')
    &&& free_of(info.build_timestamp@, '\n')
    &&& info.git_commit matches Some(c) ==> free_of(c@, '\n')
    &&& forall|k: int|
        0 <= k < info.features@.len() ==> free_of(#[trigger] str_views(info.features@)[k], '\n')
}

proof fn lemma_not_prefix(l: Seq<char>, p: Seq<char>, k: int)
    requires
        0 <= k < p.len(),
        k < l.len() ==> l[k] != p[k],
    ensures
        !text::starts_with(l, p),
{
    if text::starts_with(l, p) {
        assert(l.take(p.len() as int)[k] == l[k]);
    }
}

proof fn lemma_lines_add(a: Seq<Seq<char>>, b: Seq<Seq<char>>, info: VersionInfo)
    requires
        all_lines_ok(a, info),
        all_lines_ok(b, info),
        all_lines_free(a),
        all_lines_free(b),
    ensures
        all_lines_ok(a + b, info),
        all_lines_free(a + b),
{
    assert forall|t: int| 0 <= t < (a + b).len() implies line_ok(#[trigger] (a + b)[t], info)
        && free_of((a + b)[t], '\n') by {
        if t < a.len() {
            assert((a + b)[t] == a[t]);
        } else {
            assert((a + b)[t] == b[t - a.len()]);
        }
    }
}

proof fn lemma_free_concat(a: Seq<char>, b: Seq<char>)
    requires
        free_of(a, '\n'),
        free_of(b, '\n'),
    ensures
        free_of(a + b, '\n'),
{
    assert forall|k: int| 0 <= k < (a + b).len() implies #[trigger] (a + b)[k] != '\n' by {
        if k < a.len() {
            assert((a + b)[k] == a[k]);
        } else {
            assert((a + b)[k] == b[k - a.len()]);
        }
    }
}

proof fn lemma_prefixed_line(lit: Seq<char>, field: Seq<char>, info: VersionInfo)
    requires
        lit.len() >= 3,
        lit[0] != ' ' || lit[1] != ' ' || (lit[2] != 'G' && lit[2] != 'F' && lit[2] != '\u{2022}'),
        free_of(lit, '\n'),
        free_of(field, '\n'),
    ensures
        line_ok(lit + field, info),
        free_of(lit + field, '\n'),
{
    reveal_strlit("  Git Commit:   ");
    reveal_strlit("  Features:");
    reveal_strlit("  \u{2022} ");
    let l = lit + field;
    assert(l[0] == lit[0] && l[1] == lit[1] && l[2] == lit[2]);
    if lit[0] != ' ' {
        lemma_not_prefix(l, "  Git Commit:   "@, 0);
        lemma_not_prefix(l, "  Features:"@, 0);
        lemma_not_prefix(l, "  \u{2022} "@, 0);
    } else if lit[1] != ' ' {
        lemma_not_prefix(l, "  Git Commit:   "@, 1);
        lemma_not_prefix(l, "  Features:"@, 1);
        lemma_not_prefix(l, "  \u{2022} "@, 1);
    } else {
        lemma_not_prefix(l, "  Git Commit:   "@, 2);
        lemma_not_prefix(l, "  Features:"@, 2);
        lemma_not_prefix(l, "  \u{2022} "@, 2);
    }
    lemma_free_concat(lit, field);
}

#[verifier::rlimit(60)]
proof fn lemma_head_lines_ok(info: VersionInfo)
    requires
        single_line_fields(info),
    ensures
        all_lines_ok(head_lines(info), info),
        all_lines_free(head_lines(info)),
{
    reveal_strlit("swictation-daemon ");
    reveal_strlit("Build Information:");
    reveal_strlit("  ONNX Runtime: ");
    reveal_strlit("  Target:       ");
    reveal_strlit("  Profile:      ");
    reveal_strlit("  Build Date:   ");
    reveal_strlit("  Git Commit:   ");
    reveal_strlit("  Features:");
    reveal_strlit("  \u{2022} ");
    let h = head_lines(info);
    let e = Seq::<char>::empty();
    lemma_prefixed_line("swictation-daemon "@, info.daemon_version@, info);
    lemma_prefixed_line("Build Information:"@, e, info);
    assert("Build Information:"@ + e =~= "Build Information:"@);
    lemma_prefixed_line("  ONNX Runtime: "@, info.ort_version@, info);
    lemma_prefixed_line("  Target:       "@, info.target@, info);
    lemma_prefixed_line("  Profile:      "@, info.profile@, info);
    lemma_prefixed_line("  Build Date:   "@, info.build_timestamp@, info);
    lemma_not_prefix(e, "  Git Commit:   "@, 0);
    lemma_not_prefix(e, "  Features:"@, 0);
    lemma_not_prefix(e, "  \u{2022} "@, 0);
    assert(line_ok(e, info));
    assert(free_of(e, '\n'));
    assert forall|t: int| 0 <= t < h.len() implies line_ok(#[trigger] h[t], info) && free_of(h[t], '\n') by {
        if t == 1 {
            assert(h[t] == e);
        } else if t == 2 {
            assert(h[t] == "Build Information:"@);
        }
    }
}

proof fn lemma_option_lines_ok(info: VersionInfo)
    requires
        single_line_fields(info),
    ensures
        all_lines_ok(commit_lines(info), info),
        all_lines_free(commit_lines(info)),
        all_lines_ok(features_lines(info), info),
        all_lines_free(features_lines(info)),
{
    reveal_strlit("  Git Commit:   ");
    reveal_strlit("  Features:");
    reveal_strlit("  Features:     ");
    reveal_strlit("  \u{2022} ");
    reveal_strlit(", ");
    if let Some(c) = info.git_commit {
        let l = "  Git Commit:   "@ + c@;
        assert(l[2] == 'G');
        lemma_not_prefix(l, "  Features:"@, 2);
        lemma_not_prefix(l, "  \u{2022} "@, 2);
        lemma_free_concat("  Git Commit:   "@, c@);
        assert(commit_lines(info)[0] == l);
    }
    if info.features@.len() > 0 {
        let j = text::join(str_views(info.features@), ", "@);
        let l = "  Features:     "@ + j;
        assert(l[2] == 'F');
        lemma_not_prefix(l, "  Git Commit:   "@, 2);
        lemma_not_prefix(l, "  \u{2022} "@, 2);
        assert forall|i: int| 0 <= i < str_views(info.features@).len() implies free_of(
            #[trigger] str_views(info.features@)[i],
            '\n',
        ) by {}
        lemma_join_free(str_views(info.features@), ", "@, '\n');
        lemma_free_concat("  Features:     "@, j);
        assert(features_lines(info)[0] == l);
    }
}

proof fn lemma_bullet_lines_ok(items: Seq<Seq<char>>, info: VersionInfo)
    requires
        forall|k: int| 0 <= k < items.len() ==> free_of(#[trigger] items[k], '\n'),
        items == model_list() || items == gpu_library_list(),
    ensures
        all_lines_ok(items.map_values(|x: Seq<char>| bullet_text(x)), info),
        all_lines_free(items.map_values(|x: Seq<char>| bullet_text(x))),
{
    reveal_strlit("  Git Commit:   ");
    reveal_strlit("  Features:");
    reveal_strlit("  \u{2022} ");
    let m = items.map_values(|x: Seq<char>| bullet_text(x));
    assert forall|t: int| 0 <= t < m.len() implies line_ok(#[trigger] m[t], info) && free_of(m[t], '\n') by {
        let l = m[t];
        assert(l == "  \u{2022} "@ + items[t]);
        assert(l[2] == '\u{2022}');
        lemma_not_prefix(l, "  Git Commit:   "@, 2);
        lemma_not_prefix(l, "  Features:"@, 2);
        assert(m.contains(l));
        lemma_free_concat("  \u{2022} "@, items[t]);
    }
}

proof fn lemma_report_lines_ok(info: VersionInfo)
    requires
        single_line_fields(info),
    ensures
        all_lines_ok(report_lines(info), info),
        all_lines_free(report_lines(info)),
{
    reveal_strlit("Model Compatibility:");
    reveal_strlit("GPU Libraries:");
    reveal_strlit("Parakeet-TDT-0.6B-V3 (ONNX)");
    reveal_strlit("Parakeet-TDT-1.1B-V3 (ONNX)");
    reveal_strlit("CUDA 11.8 + cuDNN 8.9.7 (Maxwell/Pascal/Volta)");
    reveal_strlit("CUDA 12.9 + cuDNN 9.15.1 (Turing/Ampere/Ada/Hopper/Blackwell)");
    let e = Seq::<char>::empty();
    lemma_head_lines_ok(info);
    lemma_option_lines_ok(info);
    lemma_prefixed_line("Model Compatibility:"@, e, info);
    lemma_prefixed_line("GPU Libraries:"@, e, info);
    assert("Model Compatibility:"@ + e =~= "Model Compatibility:"@);
    assert("GPU Libraries:"@ + e =~= "GPU Libraries:"@);
    reveal_strlit("  Git Commit:   ");
    reveal_strlit("  Features:");
    reveal_strlit("  \u{2022} ");
    lemma_not_prefix(e, "  Git Commit:   "@, 0);
    lemma_not_prefix(e, "  Features:"@, 0);
    lemma_not_prefix(e, "  \u{2022} "@, 0);
    let d = seq![e, "Model Compatibility:"@];
    let f = seq![e, "GPU Libraries:"@];
    assert(all_lines_ok(d, info) && all_lines_free(d)) by {
        assert forall|t: int| 0 <= t < d.len() implies line_ok(#[trigger] d[t], info) && free_of(d[t], '\n') by {
            if t == 0 { assert(d[t] == e); } else { assert(d[t] == "Model Compatibility:"@); }
        }
    }
    assert(all_lines_ok(f, info) && all_lines_free(f)) by {
        assert forall|t: int| 0 <= t < f.len() implies line_ok(#[trigger] f[t], info) && free_of(f[t], '\n') by {
            if t == 0 { assert(f[t] == e); } else { assert(f[t] == "GPU Libraries:"@); }
        }
    }
    assert forall|k: int| 0 <= k < model_list().len() implies free_of(#[trigger] model_list()[k], '\n') by {}
    assert forall|k: int| 0 <= k < gpu_library_list().len() implies free_of(#[trigger] gpu_library_list()[k], '\n') by {}
    lemma_bullet_lines_ok(model_list(), info);
    lemma_bullet_lines_ok(gpu_library_list(), info);
    let a = head_lines(info);
    let b = commit_lines(info);
    let c = features_lines(info);
    let m = model_list().map_values(|x: Seq<char>| bullet_text(x));
    let g = gpu_library_list().map_values(|x: Seq<char>| bullet_text(x));
    lemma_lines_add(a, b, info);
    lemma_lines_add(a + b, c, info);
    lemma_lines_add(a + b + c, d, info);
    lemma_lines_add(a + b + c + d, m, info);
    lemma_lines_add(a + b + c + d + m, f, info);
    lemma_lines_add(a + b + c + d + m + f, g, info);
}

/// The report's lines, when no build metadata holds a line break: it has
/// the line `  Git Commit:   c` exactly when the commit `c` is known (no
/// line starts with `  Git Commit:` otherwise), the features line exactly
/// when features are enabled (no line starts with `  Features:`
/// otherwise), and its bulleted lines are exactly one per compatible model
/// and one per supported GPU library.
pub proof fn lemma_report_lines(info: VersionInfo)
    requires
        single_line_fields(info),
    ensures
        info.git_commit matches Some(c) ==> has_line(version_report(info), "  Git Commit:   "@ + c@),
        has_line_starting(version_report(info), "  Git Commit:   "@) ==> info.git_commit is Some,
        info.features@.len() > 0 ==> has_line(
            version_report(info),
            "  Features:     "@ + text::join(str_views(info.features@), ", "@),
        ),
        has_line_starting(version_report(info), "  Features:"@) ==> info.features@.len() > 0,
        forall|k: int|
            0 <= k < model_list().len() ==> has_line(
                version_report(info),
                bullet_text(#[trigger] model_list()[k]),
            ),
        forall|k: int|
            0 <= k < gpu_library_list().len() ==> has_line(
                version_report(info),
                bullet_text(#[trigger] gpu_library_list()[k]),
            ),
        forall|l: Seq<char>|
            #[trigger] has_line(version_report(info), l) && free_of(l, '\n') && text::starts_with(
                l,
                "  \u{2022} "@,
            ) ==> is_bullet(l),
{
    let ls = report_lines(info);
    let r = version_report(info);
    lemma_report_as_lines(info);
    lemma_report_lines_ok(info);
    reveal_strlit("  Git Commit:   ");
    reveal_strlit("  Features:");
    reveal_strlit("  \u{2022} ");
    let a = head_lines(info);
    let b = commit_lines(info);
    let c = features_lines(info);
    let d = seq![Seq::<char>::empty(), "Model Compatibility:"@];
    let m = model_list().map_values(|x: Seq<char>| bullet_text(x));
    let f = seq![Seq::<char>::empty(), "GPU Libraries:"@];
    let g = gpu_library_list().map_values(|x: Seq<char>| bullet_text(x));
    assert(ls == a + b + c + d + m + f + g);
    if let Some(cm) = info.git_commit {
        assert(ls[7] == "  Git Commit:   "@ + cm@);
        lemma_each_line_occurs(ls, 7);
    }
    if info.features@.len() > 0 {
        let t: int = 7 + b.len() as int;
        assert(ls[t] == "  Features:     "@ + text::join(str_views(info.features@), ", "@));
        lemma_each_line_occurs(ls, t);
    }
    assert forall|k: int| 0 <= k < model_list().len() implies has_line(
        r,
        bullet_text(#[trigger] model_list()[k]),
    ) by {
        let t: int = 7 + b.len() + c.len() + 2 + k;
        assert(ls[t] == m[k]);
        lemma_each_line_occurs(ls, t);
    }
    assert forall|k: int| 0 <= k < gpu_library_list().len() implies has_line(
        r,
        bullet_text(#[trigger] gpu_library_list()[k]),
    ) by {
        let t: int = 7 + b.len() + c.len() + 2 + m.len() + 2 + k;
        assert(ls[t] == g[k]);
        lemma_each_line_occurs(ls, t);
    }
    let full = seq!['\n'] + lines_text(ls);
    if has_line_starting(r, "  Git Commit:   "@) {
        let p = "  Git Commit:   "@;
        let i = choose|i: int| 0 <= i && i + (seq!['\n'] + p).len() <= full.len() && #[trigger] full.subrange(i, i + (seq!['\n'] + p).len()) == seq!['\n'] + p;
        lemma_occurrence_in_lines(ls, p, i);
        let t = choose|t: int| 0 <= t < ls.len() && text::starts_with(#[trigger] ls[t], p) && ((i + 1 + p.len() < 1
                + lines_text(ls).len() && full[i + 1 + p.len()] == '\n') ==> ls[t].len() == p.len());
        assert(line_ok(ls[t], info));
    }
    if has_line_starting(r, "  Features:"@) {
        let p = "  Features:"@;
        let i = choose|i: int| 0 <= i && i + (seq!['\n'] + p).len() <= full.len() && #[trigger] full.subrange(i, i + (seq!['\n'] + p).len()) == seq!['\n'] + p;
        lemma_occurrence_in_lines(ls, p, i);
        let t = choose|t: int| 0 <= t < ls.len() && text::starts_with(#[trigger] ls[t], p) && ((i + 1 + p.len() < 1
                + lines_text(ls).len() && full[i + 1 + p.len()] == '\n') ==> ls[t].len() == p.len());
        assert(line_ok(ls[t], info));
    }
    assert forall|l: Seq<char>|
        #[trigger] has_line(r, l) && free_of(l, '\n') && text::starts_with(l, "  \u{2022} "@) implies is_bullet(l) by {
        let q = seq!['\n'] + l + seq!['\n'];
        let i = choose|i: int| 0 <= i && i + q.len() <= full.len() && #[trigger] full.subrange(i, i + q.len()) == q;
        assert(full.subrange(i, i + 1 + l.len()) =~= seq!['\n'] + l) by {
            assert forall|k: int| 0 <= k < 1 + l.len() implies full.subrange(i, i + 1 + l.len())[k] == (seq!['\n'] + l)[k] by {
                assert(full.subrange(i, i + q.len())[k] == q[k]);
            }
        }
        assert(full[i + 1 + l.len()] == '\n') by {
            assert(full.subrange(i, i + q.len())[1 + l.len() as int] == q[1 + l.len() as int]);
        }
        lemma_occurrence_in_lines(ls, l, i);
        let t = choose|t: int| 0 <= t < ls.len() && text::starts_with(#[trigger] ls[t], l) && ((i + 1 + l.len() < 1
                + lines_text(ls).len() && full[i + 1 + l.len()] == '\n') ==> ls[t].len() == l.len());
        assert(ls[t] =~= l);
        assert(line_ok(ls[t], info));
    }
}

} // verus!
