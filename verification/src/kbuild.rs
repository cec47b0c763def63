//! Building the patch series into a kernel package and installing it.
//!
//! The plan: extract the kernel source, apply every patch of the series without
//! fuzz, rebuild the package, install it here or on a target and arm the compute
//! units. The plan is shown unless a run was asked for; before it, the build
//! tools and the firmware's memory carve are checked.
use vstd::prelude::*;

use crate::detect::DoctorJson;
use crate::patches;
use crate::patches::Patch;
use crate::text;

verus! {

/// Seconds to wait before a rebooting target is polled.
pub const VERIFY_REBOOT_GRACE_S: u64 = 30;
/// Memory carve that the series is validated at, in MB.
pub const BC250_UMA_MB: u64 = 512;
/// Seconds for a target to come back.
pub const VERIFY_POLL_TIMEOUT_S: u64 = 300;
/// Seconds between two polls.
pub const VERIFY_POLL_DELAY_S: u64 = 15;
/// Connect timeout of one poll in seconds.
pub const VERIFY_SSH_TIMEOUT_S: u64 = 10;
/// Where the tool is put on the target to verify it.
pub const VERIFY_REMOTE_BIN: &'static str = "/tmp/aputune-verify";

/// The shell check on a target that the SDMA firmware is complete.
pub const REMOTE_INSTALL: &'static str = "FW=1; [ -e /lib/firmware/amdgpu/navi12_sdma.bin ] || [ -e /lib/firmware/amdgpu/navi12_sdma.bin.zst ] || FW=0; [ -e /lib/firmware/amdgpu/navi12_sdma1.bin ] || [ -e /lib/firmware/amdgpu/navi12_sdma1.bin.zst ] || FW=0; [ \"$FW\" = 1 ] || echo \"WARN: navi12_sdma firmware incomplete (sdma or sdma1 blob missing) - patch 26 left inert\"; CONF=\"";
/// The shell line on a target between the modes and the firmware's setting.
pub const REMOTE_ARM: &'static str = "\"; if [ \"$FW\" = 1 ]; then CONF=\"$CONF\"\"";
/// The shell check on this host that the SDMA firmware is complete.
pub const LOCAL_INSTALL: &'static str = "FW=1; [ -e /lib/firmware/amdgpu/navi12_sdma.bin ] || [ -e /lib/firmware/amdgpu/navi12_sdma.bin.zst ] || FW=0; [ -e /lib/firmware/amdgpu/navi12_sdma1.bin ] || [ -e /lib/firmware/amdgpu/navi12_sdma1.bin.zst ] || FW=0; [ \"$FW\" = 1 ] || echo 'WARN: navi12_sdma firmware incomplete (sdma or sdma1 blob missing) - patch 26 left inert'; CONF='";
/// The shell line on this host between the modes and the firmware's setting.
pub const LOCAL_ARM: &'static str = "'; if [ \"$FW\" = 1 ]; then CONF=\"$CONF\"'";

/// What to build, where, and for whom.
#[derive(Debug)]
pub struct BuildOpts {
    /// Directory of the kernel package description.
    pub pkgbuild_dir: Option<String>,
    /// Where the patches are staged.
    pub work_dir: String,
    /// C compiler.
    pub cc: String,
    /// Deploy target `user@host`; `None` installs here.
    pub target: Option<String>,
    /// Unit mode to arm: 3 routes all units, 0 none of the locked ones.
    pub cc_mode: u32,
    /// Execute the plan.
    pub run: bool,
}

impl BuildOpts {
    /// The options that the environment gives: a work directory, else one below
    /// the home directory; a package directory; a compiler.
    pub fn from_env(
        work_dir: Option<String>,
        home: Option<String>,
        pkgbuild: Option<String>,
        cc: Option<String>,
    ) -> (r: BuildOpts)
        ensures
            r.pkgbuild_dir == pkgbuild,
            r.work_dir@ == (match work_dir {
                Some(w) => w@,
                None => text::path_join(
                    match home {
                        Some(h) => h@,
                        None => "/tmp"@,
                    },
                    ".cache/aputune-build"@,
                ),
            }),
            r.cc@ == (match cc {
                Some(c) => c@,
                None => "gcc-15"@,
            }),
            r.target is None,
            r.cc_mode == 3,
            !r.run,
    {
        let work: String = match work_dir {
            Some(w) => w,
            None => match home {
                Some(h) => text::join_path(h.as_str(), ".cache/aputune-build"),
                None => text::join_path("/tmp", ".cache/aputune-build"),
            },
        };
        let compiler: String = match cc {
            Some(c) => c,
            None => "gcc-15".to_owned(),
        };
        BuildOpts {
            pkgbuild_dir: pkgbuild,
            work_dir: work,
            cc: compiler,
            target: None,
            cc_mode: 3,
            run: false,
        }
    }
}

impl Default for BuildOpts {
    /// The options of an empty environment.
    fn default() -> (r: BuildOpts)
        ensures
            r.pkgbuild_dir is None,
            r.work_dir@ == text::path_join("/tmp"@, ".cache/aputune-build"@),
            r.cc@ == "gcc-15"@,
            r.target is None,
            r.cc_mode == 3,
            !r.run,
    {
        BuildOpts::from_env(None, None, None, None)
    }
}

/// Why a build is refused or failed.
#[derive(Debug)]
pub enum BuildError {
    BadTarget { target: String },
    /// No package directory was given (asked for by the plan).
    NoPkgbuild,
    /// No package directory was given (asked for before anything else).
    NoPkgbuildDir,
    /// The package directory holds no package description.
    MissingPkgbuild { dir: String },
    /// The package directory belongs to root, as which nothing is built.
    RootOwned { dir: String },
    /// Build tools are missing; the message names them.
    MissingDeps { message: String },
    /// The memory carve is another one.
    WrongUma { mb: u64 },
    /// No extracted source.
    NoSource { src: String },
    /// More than one extracted source.
    ManySources { count: usize, src: String },
    /// The target did not come back.
    NotOnline { target: String },
    /// The target came back on the old kernel.
    OldKernel { target: String, kernel: String },
    /// The target's kernel lacks patches.
    NotFullyLive { target: String, kernel: String, present: usize, total: usize },
}

/// The message about a wrong memory carve.
pub open spec fn uma_text(mb: u64) -> Seq<char> {
    "UMA frame buffer is "@ + text::dec(mb as nat)
        + "M — the liberation series expects 512M. Wrong UMA breaks IP discovery ('invalid ip discovery binary signature') and PSP firmware loads (LOAD_IP_FW 0xFFFF0008), which look like patch bugs. Fix in BIOS: UMA Frame Buffer Size = 512M."@
}

fn uma_message(mb: u64) -> (r: String)
    ensures
        r@ == uma_text(mb),
{
    text::join3(
        "UMA frame buffer is ",
        text::decimal(mb).as_str(),
        "M — the liberation series expects 512M. Wrong UMA breaks IP discovery ('invalid ip discovery binary signature') and PSP firmware loads (LOAD_IP_FW 0xFFFF0008), which look like patch bugs. Fix in BIOS: UMA Frame Buffer Size = 512M.",
    )
}

impl BuildError {
    /// The message shown to the operator.
    pub open spec fn text(&self) -> Seq<char> {
        match self {
            BuildError::BadTarget { target } => "invalid --target '"@ + target@
                + "': must be user@host with only letters, digits, . _ -"@,
            BuildError::NoPkgbuild =>
                "no PKGBUILD dir set (pass --pkgbuild <dir> or APUTUNE_PKGBUILD)"@,
            BuildError::NoPkgbuildDir =>
                "no PKGBUILD dir set (pass --pkgbuild <dir> or APUTUNE_PKGBUILD); it must hold a CachyOS linux-cachyos-* PKGBUILD"@,
            BuildError::MissingPkgbuild { dir } => "no PKGBUILD in "@ + dir@,
            BuildError::RootOwned { dir } => "PKGBUILD dir "@ + dir@
                + " is root-owned — makepkg refuses root; chown it to the build user and re-run"@,
            BuildError::MissingDeps { message } => message@,
            BuildError::WrongUma { mb } => uma_text(*mb),
            BuildError::NoSource { src } => "no extracted cachyos-* dir under "@ + src@,
            BuildError::ManySources { count, src } => text::dec(*count as nat)
                + " cachyos-* dirs under "@ + src@ + " — ambiguous; remove the stale ones"@,
            BuildError::NotOnline { target } => target@
                + " did not come back online within 300s of the reboot — check its console (a failed boot may be sitting in the bootloader or a rescue shell)"@,
            BuildError::OldKernel { target, kernel } => target@
                + " came back on the OLD kernel ("@ + kernel@
                + ") — the new kernel did not boot (bootloader fallback?); expected `uname -r` != "@
                + kernel@,
            BuildError::NotFullyLive { target, kernel, present, total } => target@ + " booted "@
                + kernel@ + " but the series is NOT fully live ("@ + text::dec(*present as nat)
                + "/"@ + text::dec(*total as nat)
                + " patches) — run `arieltune apu patches` on the target for the per-patch detail"@,
        }
    }

    /// The message shown to the operator.
    pub fn message(&self) -> (r: String)
        ensures
            r@ == self.text(),
    {
        match self {
            BuildError::BadTarget { target } => text::join3(
                "invalid --target '",
                target.as_str(),
                "': must be user@host with only letters, digits, . _ -",
            ),
            BuildError::NoPkgbuild => {
                "no PKGBUILD dir set (pass --pkgbuild <dir> or APUTUNE_PKGBUILD)".to_owned()
            },
            BuildError::NoPkgbuildDir => {
                "no PKGBUILD dir set (pass --pkgbuild <dir> or APUTUNE_PKGBUILD); it must hold a CachyOS linux-cachyos-* PKGBUILD".to_owned()
            },
            BuildError::MissingPkgbuild { dir } => text::join2("no PKGBUILD in ", dir.as_str()),
            BuildError::RootOwned { dir } => text::join3(
                "PKGBUILD dir ",
                dir.as_str(),
                " is root-owned — makepkg refuses root; chown it to the build user and re-run",
            ),
            BuildError::MissingDeps { message } => message.clone(),
            BuildError::WrongUma { mb } => uma_message(*mb),
            BuildError::NoSource { src } => text::join2(
                "no extracted cachyos-* dir under ",
                src.as_str(),
            ),
            BuildError::ManySources { count, src } => {
                let mut r = text::join3(
                    text::decimal(*count as u64).as_str(),
                    " cachyos-* dirs under ",
                    src.as_str(),
                );
                r.append(" — ambiguous; remove the stale ones");
                r
            },
            BuildError::NotOnline { target } => text::join2(
                target.as_str(),
                " did not come back online within 300s of the reboot — check its console (a failed boot may be sitting in the bootloader or a rescue shell)",
            ),
            BuildError::OldKernel { target, kernel } => {
                let mut r = text::join3(
                    target.as_str(),
                    " came back on the OLD kernel (",
                    kernel.as_str(),
                );
                r.append(
                    ") — the new kernel did not boot (bootloader fallback?); expected `uname -r` != ",
                );
                r.append(kernel.as_str());
                r
            },
            BuildError::NotFullyLive { target, kernel, present, total } => {
                let mut r = text::join3(target.as_str(), " booted ", kernel.as_str());
                r.append(" but the series is NOT fully live (");
                r.append(text::decimal(*present as u64).as_str());
                r.append("/");
                r.append(text::decimal(*total as u64).as_str());
                r.append(
                    " patches) — run `arieltune apu patches` on the target for the per-patch detail",
                );
                r
            },
        }
    }
}

// ---------------------------------------------------------------------------
// Steps

/// One step of the plan.
#[derive(Debug)]
pub struct Step {
    pub desc: String,
    /// Program and arguments.
    pub argv: Vec<String>,
    /// Working directory.
    pub cwd: String,
    /// Extra environment.
    pub env: Vec<(String, String)>,
    /// User to run as; `None` keeps the current one.
    pub uid: Option<u32>,
}

/// A step with its texts as characters.
pub struct StepView {
    pub desc: Seq<char>,
    pub argv: Seq<Seq<char>>,
    pub cwd: Seq<char>,
    pub env: Seq<(Seq<char>, Seq<char>)>,
    pub uid: Option<u32>,
}

/// The views of a list of pairs of texts.
pub open spec fn pairs(v: Seq<(String, String)>) -> Seq<(Seq<char>, Seq<char>)> {
    Seq::new(v.len(), |i: int| (v[i].0@, v[i].1@))
}

impl View for Step {
    type V = StepView;

    open spec fn view(&self) -> StepView {
        StepView {
            desc: self.desc@,
            argv: text::texts(self.argv@),
            cwd: self.cwd@,
            env: pairs(self.env@),
            uid: self.uid,
        }
    }
}

/// The views of a list of steps.
pub open spec fn step_views(v: Seq<Step>) -> Seq<StepView> {
    Seq::new(v.len(), |i: int| v[i]@)
}

/// A step that runs as the current user with the environment as it is.
pub fn step(desc: &str, cwd: &str, argv: &[&str]) -> (r: Step)
    ensures
        r@ == (StepView {
            desc: desc@,
            argv: text::slices(argv@),
            cwd: cwd@,
            env: seq![],
            uid: None,
        }),
{
    let mut args: Vec<String> = Vec::new();
    let mut i: usize = 0;
    while i < argv.len()
        invariant
            i <= argv@.len(),
            args@.len() == i,
            forall|j: int| 0 <= j < i ==> (#[trigger] args@[j])@ == argv@[j]@,
        decreases argv@.len() - i,
    {
        args.push(argv[i].to_owned());
        i += 1;
    }
    assert(text::texts(args@) =~= text::slices(argv@));
    let r = Step {
        desc: desc.to_owned(),
        argv: args,
        cwd: cwd.to_owned(),
        env: Vec::new(),
        uid: None,
    };
    assert(pairs(r.env@) =~= seq![]);
    r
}

/// The environment settings as they stand before a command.
pub open spec fn env_text(env: Seq<(Seq<char>, Seq<char>)>) -> Seq<char>
    decreases env.len(),
{
    if env.len() == 0 {
        seq![]
    } else {
        env_text(env.drop_last()) + env.last().0 + "="@ + env.last().1 + " "@
    }
}

impl Step {
    /// The step with one more environment setting.
    pub fn with_env(self, k: &str, v: &str) -> (r: Step)
        ensures
            r@ == (StepView { env: self@.env.push((k@, v@)), ..self@ }),
    {
        let mut r = self;
        r.env.push((k.to_owned(), v.to_owned()));
        assert(pairs(r.env@) =~= pairs(self.env@).push((k@, v@)));
        r
    }

    /// The step run as a user.
    pub fn with_uid(self, uid: Option<u32>) -> (r: Step)
        ensures
            r@ == (StepView { uid, ..self@ }),
    {
        let mut r = self;
        r.uid = uid;
        r
    }

    /// The step as a command line.
    pub fn render(&self) -> (r: String)
        ensures
            r@ == env_text(self@.env) + text::joined(self@.argv, " "@),
    {
        let mut r = String::new();
        let ghost env = pairs(self.env@);
        let mut i: usize = 0;
        while i < self.env.len()
            invariant
                i <= self.env@.len(),
                env == pairs(self.env@),
                r@ == env_text(env.take(i as int)),
            decreases self.env@.len() - i,
        {
            assert(env.take(i + 1).drop_last() =~= env.take(i as int));
            r.append(self.env[i].0.as_str());
            r.append("=");
            r.append(self.env[i].1.as_str());
            r.append(" ");
            i += 1;
        }
        assert(env.take(i as int) =~= env);
        r.append(text::join(&self.argv, " ").as_str());
        r
    }
}

/// The user that the build steps run as: as root, the owner of the package
/// directory, for nothing is built as root.
pub open spec fn drop_uid(euid: u32, owner: u32) -> Option<u32> {
    if euid == 0 && owner != 0 { Some(owner) } else { None }
}

/// The user that the build steps run as; `None` keeps the current one.
pub fn drop_uid_for(euid: u32, owner_uid: u32) -> (r: Option<u32>)
    ensures
        r == drop_uid(euid, owner_uid),
{
    if euid == 0 && owner_uid != 0 {
        Some(owner_uid)
    } else {
        None
    }
}

/// The user that the build steps run as. Root with a root-owned package
/// directory has nobody to build as.
pub fn resolve_drop_uid(euid: u32, owner: u32, pkgbuild: &str) -> (r: Result<
    Option<u32>,
    BuildError,
>)
    ensures
        euid == 0 && owner == 0 ==> (r matches Err(BuildError::RootOwned { dir }) && dir@
            == pkgbuild@),
        !(euid == 0 && owner == 0) ==> r == Ok::<Option<u32>, BuildError>(drop_uid(euid, owner)),
{
    if euid == 0 && owner == 0 {
        return Err(BuildError::RootOwned { dir: pkgbuild.to_owned() });
    }
    Ok(drop_uid_for(euid, owner))
}

// ---------------------------------------------------------------------------
// Targets and quoting

/// A character of a target's user or host name.
pub open spec fn target_char(c: char) -> bool {
    ||| 48 <= text::code(c) <= 57
    ||| 65 <= text::code(c) <= 90
    ||| 97 <= text::code(c) <= 122
    ||| c == '_'
    ||| c == '.'
    ||| c == '-'
}

/// A user or host name.
pub open spec fn target_part(s: Seq<char>) -> bool {
    s.len() > 0 && forall|i: int| 0 <= i < s.len() ==> target_char(#[trigger] s[i])
}

/// A target splits into user and host at position `i`.
pub open spec fn splits_at(t: Seq<char>, i: int) -> bool {
    &&& 0 <= i < t.len()
    &&& t[i] == '@'
    &&& target_part(t.subrange(0, i))
    &&& target_part(text::after(t, i + 1))
}

/// A deploy target: a user and a host name with one `@` between them.
pub open spec fn good_target(t: Seq<char>) -> bool {
    exists|i: int| splits_at(t, i)
}

fn part_ok(x: &Vec<char>, from: usize, to: usize) -> (r: bool)
    requires
        from <= to <= x@.len(),
    ensures
        r == target_part(x@.subrange(from as int, to as int)),
{
    let ghost part = x@.subrange(from as int, to as int);
    if from == to {
        return false;
    }
    let mut i: usize = from;
    while i < to
        invariant
            from <= i <= to <= x@.len(),
            part == x@.subrange(from as int, to as int),
            forall|j: int| 0 <= j < i - from ==> target_char(#[trigger] part[j]),
        decreases to - i,
    {
        let c: char = x[i];
        let k: u32 = c as u32;
        if !((48 <= k && k <= 57) || (65 <= k && k <= 90) || (97 <= k && k <= 122) || c == '_' || c
            == '.' || c == '-') {
            assert(!target_char(part[i - from]));
            return false;
        }
        i += 1;
    }
    true
}

/// Accepts deploy targets that are safe in a shell line.
pub fn valid_target(t: &str) -> (r: Result<(), BuildError>)
    ensures
        good_target(t@) ==> r is Ok,
        !good_target(t@) ==> (r matches Err(BuildError::BadTarget { target }) && target@ == t@),
{
    let x = text::chars_of(t);
    let n: usize = x.len();
    let mut i: usize = 0;
    while i < n && x[i] != '@'
        invariant
            x@ == t@,
            n == x@.len(),
            i <= n,
            forall|j: int| 0 <= j < i ==> #[trigger] x@[j] != '@',
        decreases n - i,
    {
        i += 1;
    }
    if i < n && part_ok(&x, 0, i) && part_ok(&x, i + 1, n) {
        assert(splits_at(t@, i as int));
        return Ok(());
    }
    proof {
        if good_target(t@) {
            let k = choose|k: int| splits_at(t@, k);
            if k > i {
                assert(t@.subrange(0, k)[i as int] == '@');
            }
            assert(k == i);
        }
    }
    Err(BuildError::BadTarget { target: t.to_owned() })
}

/// A good target is inert in a shell line: it holds no space, quote, separator
/// or substitution.
pub proof fn good_target_is_inert(t: Seq<char>)
    requires
        good_target(t),
    ensures
        forall|i: int|
            0 <= i < t.len() ==> target_char(#[trigger] t[i]) || t[i] == '@',
        forall|i: int|
            0 <= i < t.len() ==> #[trigger] t[i] != ' ' && t[i] != '\'' && t[i] != '"' && t[i] != ';'
                && t[i] != '$' && t[i] != '`' && t[i] != '|' && t[i] != '&' && t[i] != '\n',
{
    let k = choose|k: int| splits_at(t, k);
    assert forall|i: int| 0 <= i < t.len() implies target_char(#[trigger] t[i]) || t[i] == '@' by {
        if i < k {
            assert(t.subrange(0, k)[i] == t[i]);
        } else if i > k {
            assert(text::after(t, k + 1)[i - k - 1] == t[i]);
        }
    }
}

/// A text in single quotes for a shell, each single quote in it closed, escaped
/// and opened again.
pub open spec fn quoted(s: Seq<char>) -> Seq<char> {
    "'"@ + text::replaced(s, "'"@, "'\\''"@) + "'"@
}

/// Quotes a text for a shell line.
pub fn sh_quote(s: &str) -> (r: String)
    ensures
        r@ == quoted(s@),
{
    proof {
        reveal_strlit("'");
    }
    text::join3("'", text::replace(s, "'", "'\\''").as_str(), "'")
}

/// The word that a shell reads: inside single quotes every character stands for
/// itself, outside them a backslash does that for the next one. `None` where the
/// text is not one word of that kind.
pub open spec fn shell_word(s: Seq<char>, inside: bool) -> Option<Seq<char>>
    decreases s.len(),
{
    if s.len() == 0 {
        if inside { None } else { Some(seq![]) }
    } else if s[0] == '\'' {
        shell_word(s.drop_first(), !inside)
    } else if inside {
        match shell_word(s.drop_first(), true) {
            Some(w) => Some(seq![s[0]] + w),
            None => None,
        }
    } else if s[0] == '\\' && s.len() > 1 {
        match shell_word(text::after(s, 2), false) {
            Some(w) => Some(seq![s[1]] + w),
            None => None,
        }
    } else {
        None
    }
}

/// A shell reads a quoted text back as the text itself.
pub proof fn quoting_round_trip(s: Seq<char>)
    ensures
        shell_word(quoted(s), false) == Some(s),
{
    reveal_strlit("'");
    let body = text::replaced(s, "'"@, "'\\''"@) + "'"@;
    assert(quoted(s) =~= "'"@ + body);
    assert(quoted(s).drop_first() =~= body);
    quoted_body(s);
}

proof fn quoted_body(s: Seq<char>)
    ensures
        shell_word(text::replaced(s, "'"@, "'\\''"@) + "'"@, true) == Some(s),
    decreases s.len(),
{
    reveal_strlit("'");
    reveal_strlit("'\\''");
    let q = "'"@;
    let e = "'\\''"@;
    let body = text::replaced(s, q, e) + q;
    if s.len() == 0 {
        assert(body =~= q);
        assert(q.drop_first() =~= seq![]);
        assert(shell_word(q.drop_first(), false) == Some(Seq::<char>::empty()));
        assert(s =~= seq![]);
    } else if text::begins(s, q) {
        let rest = text::after(s, 1);
        quoted_body(rest);
        assert(s.subrange(0, 1)[0] == '\'');
        assert(s =~= seq!['\''] + rest);
        let tail = text::replaced(rest, q, e) + q;
        assert(body =~= e + tail);
        let b1 = body.drop_first();
        assert(b1[0] == '\\' && b1[1] == '\'');
        let b3 = text::after(b1, 2);
        assert(b3[0] == '\'');
        assert(b3.drop_first() =~= tail);
        assert(shell_word(b3, false) == shell_word(tail, true));
        assert(shell_word(b1, false) == Some(seq!['\''] + rest));
        assert(shell_word(body, true) == shell_word(b1, false));
    } else {
        let rest = s.drop_first();
        quoted_body(rest);
        assert(s[0] != '\'') by {
            if s[0] == '\'' {
                assert(s.subrange(0, 1) =~= q);
            }
        }
        assert(body =~= seq![s[0]] + (text::replaced(rest, q, e) + q));
        assert(body.drop_first() =~= text::replaced(rest, q, e) + q);
        assert(s =~= seq![s[0]] + rest);
    }
}

/// The options that both remote tools get: a timeout, and no prompt.
pub open spec fn ssh_options(tool: Seq<char>) -> Seq<Seq<char>> {
    seq![tool, "-o"@, "ConnectTimeout=10"@, "-o"@, "BatchMode=yes"@]
}

fn ssh_base(tool: &str) -> (r: Vec<String>)
    ensures
        text::texts(r@) == ssh_options(tool@),
{
    let mut v: Vec<String> = Vec::new();
    v.push(tool.to_owned());
    v.push("-o".to_owned());
    v.push("ConnectTimeout=10".to_owned());
    v.push("-o".to_owned());
    v.push("BatchMode=yes".to_owned());
    assert(text::texts(v@) =~= ssh_options(tool@));
    v
}

/// The command that runs `remote` on a target.
pub fn ssh_argv(target: &str, remote: &[&str]) -> (r: Vec<String>)
    ensures
        text::texts(r@) == ssh_options("ssh"@) + seq![target@] + text::slices(remote@),
{
    let mut v = ssh_base("ssh");
    let ghost base = v@;
    v.push(target.to_owned());
    let ghost head = v@;
    assert(text::texts(head) =~= ssh_options("ssh"@) + seq![target@]) by {
        assert(text::texts(head) =~= text::texts(base).push(target@));
    }
    let mut i: usize = 0;
    while i < remote.len()
        invariant
            i <= remote@.len(),
            v@.len() == head.len() + i,
            forall|j: int| 0 <= j < head.len() ==> #[trigger] v@[j] == head[j],
            forall|j: int| 0 <= j < i ==> (#[trigger] v@[head.len() + j])@ == remote@[j]@,
        decreases remote@.len() - i,
    {
        v.push(remote[i].to_owned());
        i += 1;
    }
    assert(text::texts(v@) =~= text::texts(head) + text::slices(remote@)) by {
        assert forall|k: int| 0 <= k < v@.len() implies text::texts(v@)[k] == (text::texts(head)
            + text::slices(remote@))[k] by {
            if k >= head.len() {
                assert(v@[head.len() + (k - head.len())]@ == remote@[k - head.len()]@);
            }
        }
    }
    v
}

/// The command that copies a file to a target.
pub fn scp_argv(local: &str, target: &str, remote_path: &str) -> (r: Vec<String>)
    ensures
        text::texts(r@) == ssh_options("scp"@) + seq![local@, target@ + ":"@ + remote_path@],
{
    let mut v = ssh_base("scp");
    let ghost base = v@;
    v.push(local.to_owned());
    v.push(text::join3(target, ":", remote_path));
    assert(text::texts(v@) =~= text::texts(base) + seq![local@, target@ + ":"@ + remote_path@]);
    v
}

// ---------------------------------------------------------------------------
// Build tools

/// A tool and the package it comes from.
pub open spec fn dep(bin: Seq<char>, pkg: Seq<char>) -> (Seq<char>, Seq<char>) {
    (bin, pkg)
}

/// The C++ compiler that goes with a C compiler.
pub open spec fn cxx_of(cc: Seq<char>) -> Seq<char> {
    text::replaced(cc, "gcc"@, "g++"@)
}

/// The tools of a build on this host; installing here takes one more.
pub open spec fn deps_of(cc: Seq<char>, remote: bool) -> Seq<(Seq<char>, Seq<char>)> {
    let base = seq![
        dep("makepkg"@, "pacman"@),
        dep(cc, "gcc15"@),
        dep(cxx_of(cc), "gcc15"@),
        dep("bc"@, "bc"@),
        dep("patch"@, "base-devel"@),
        dep("make"@, "base-devel"@),
        dep("clang"@, "clang"@),
        dep("ld.lld"@, "lld"@),
        dep("llvm-ar"@, "llvm"@),
        dep("llvm-nm"@, "llvm"@),
        dep("llvm-objcopy"@, "llvm"@),
        dep("llvm-strip"@, "llvm"@),
        dep("llvm-readelf"@, "llvm"@),
        dep("pahole"@, "pahole"@),
        dep("rustc"@, "rust"@),
        dep("bindgen"@, "rust-bindgen"@),
    ];
    if remote { base } else { base.push(dep("mkinitcpio"@, "mkinitcpio"@)) }
}

fn push_dep(v: &mut Vec<(String, String)>, bin: &str, pkg: &str)
    ensures
        pairs(final(v)@) == pairs(old(v)@).push(dep(bin@, pkg@)),
{
    v.push((bin.to_owned(), pkg.to_owned()));
    assert(pairs(v@) =~= pairs(old(v)@).push(dep(bin@, pkg@)));
}

/// The tools of a build, each with its package.
pub fn required_deps(opts: &BuildOpts) -> (r: Vec<(String, String)>)
    ensures
        pairs(r@) == deps_of(opts.cc@, opts.target is Some),
{
    proof {
        reveal_strlit("gcc");
    }
    let cxx = text::replace(opts.cc.as_str(), "gcc", "g++");
    let mut v: Vec<(String, String)> = Vec::new();
    push_dep(&mut v, "makepkg", "pacman");
    push_dep(&mut v, opts.cc.as_str(), "gcc15");
    push_dep(&mut v, cxx.as_str(), "gcc15");
    push_dep(&mut v, "bc", "bc");
    push_dep(&mut v, "patch", "base-devel");
    push_dep(&mut v, "make", "base-devel");
    push_dep(&mut v, "clang", "clang");
    push_dep(&mut v, "ld.lld", "lld");
    push_dep(&mut v, "llvm-ar", "llvm");
    push_dep(&mut v, "llvm-nm", "llvm");
    push_dep(&mut v, "llvm-objcopy", "llvm");
    push_dep(&mut v, "llvm-strip", "llvm");
    push_dep(&mut v, "llvm-readelf", "llvm");
    push_dep(&mut v, "pahole", "pahole");
    push_dep(&mut v, "rustc", "rust");
    push_dep(&mut v, "bindgen", "rust-bindgen");
    if opts.target.is_none() {
        push_dep(&mut v, "mkinitcpio", "mkinitcpio");
    }
    assert(pairs(v@) =~= deps_of(opts.cc@, opts.target is Some));
    v
}

/// The pairs of texts of the tools.
pub open spec fn dep_views(v: Seq<(&str, &str)>) -> Seq<(Seq<char>, Seq<char>)> {
    Seq::new(v.len(), |i: int| (v[i].0@, v[i].1@))
}

/// The items whose flag is not set, in order.
pub open spec fn unflagged(
    items: Seq<(Seq<char>, Seq<char>)>,
    flags: Seq<bool>,
) -> Seq<(Seq<char>, Seq<char>)>
    decreases items.len(),
{
    if items.len() == 0 {
        seq![]
    } else if flags[items.len() - 1] {
        unflagged(items.drop_last(), flags)
    } else {
        unflagged(items.drop_last(), flags).push(items.last())
    }
}

/// The flags are what `present` says of the tools.
pub open spec fn flags_from<F: Fn(&str) -> bool>(
    required: Seq<(&str, &str)>,
    present: F,
    flags: Seq<bool>,
) -> bool {
    &&& flags.len() == required.len()
    &&& forall|i: int|
        0 <= i < required.len() ==> call_ensures(present, (required[i].0,), #[trigger] flags[i])
}

/// The tools that `present` does not find, in order.
pub fn missing_deps<F: Fn(&str) -> bool>(required: &[(&str, &str)], present: &F) -> (r: Vec<
    (String, String),
>)
    requires
        forall|s: &str| call_requires(*present, (s,)),
    ensures
        exists|flags: Seq<bool>| #[trigger]
            flags_from(required@, *present, flags) && pairs(r@) == unflagged(
                dep_views(required@),
                flags,
            ),
{
    let ghost all = dep_views(required@);
    let ghost mut flags: Seq<bool> = seq![];
    let mut v: Vec<(String, String)> = Vec::new();
    let mut i: usize = 0;
    assert(pairs(v@) =~= unflagged(all.take(0), flags));
    while i < required.len()
        invariant
            i <= required@.len(),
            all == dep_views(required@),
            flags.len() == i,
            forall|s: &str| call_requires(*present, (s,)),
            forall|j: int|
                0 <= j < i ==> call_ensures(*present, (required@[j].0,), #[trigger] flags[j]),
            pairs(v@) == unflagged(all.take(i as int), flags),
        decreases required@.len() - i,
    {
        let d: (&str, &str) = required[i];
        let there: bool = present(d.0);
        let ghost before = flags;
        proof {
            flags = flags.push(there);
            unflagged_ignores_tail(all.take(i as int), before, flags);
            assert(all.take(i + 1).drop_last() =~= all.take(i as int));
        }
        if !there {
            push_dep(&mut v, d.0, d.1);
        }
        i += 1;
    }
    proof {
        assert(all.take(i as int) =~= all);
        assert(flags_from(required@, *present, flags));
    }
    v
}

proof fn unflagged_ignores_tail(
    items: Seq<(Seq<char>, Seq<char>)>,
    a: Seq<bool>,
    b: Seq<bool>,
)
    requires
        a.len() >= items.len(),
        b.len() >= items.len(),
        forall|i: int| 0 <= i < items.len() ==> #[trigger] a[i] == b[i],
    ensures
        unflagged(items, a) == unflagged(items, b),
    decreases items.len(),
{
    if items.len() > 0 {
        unflagged_ignores_tail(items.drop_last(), a, b);
    }
}

/// The packages of tools, each once, in the order in which they first come.
pub open spec fn packages(missing: Seq<(Seq<char>, Seq<char>)>) -> Seq<Seq<char>>
    decreases missing.len(),
{
    if missing.len() == 0 {
        seq![]
    } else {
        let before = packages(missing.drop_last());
        let pkg = missing.last().1;
        if before.contains(pkg) { before } else { before.push(pkg) }
    }
}

/// The line that installs the packages of missing tools.
pub open spec fn hint(missing: Seq<(Seq<char>, Seq<char>)>) -> Seq<char> {
    "sudo pacman -S --needed "@ + text::joined(packages(missing), " "@)
}

/// The line that installs the packages of missing tools.
pub fn install_hint(missing: &Vec<(String, String)>) -> (r: String)
    ensures
        r@ == hint(pairs(missing@)),
{
    let ghost all = pairs(missing@);
    let mut pkgs: Vec<String> = Vec::new();
    let mut i: usize = 0;
    assert(text::texts(pkgs@) =~= packages(all.take(0)));
    while i < missing.len()
        invariant
            i <= missing@.len(),
            all == pairs(missing@),
            text::texts(pkgs@) == packages(all.take(i as int)),
        decreases missing@.len() - i,
    {
        assert(all.take(i + 1).drop_last() =~= all.take(i as int));
        let pkg: &String = &missing[i].1;
        let mut seen: bool = false;
        let mut j: usize = 0;
        while j < pkgs.len()
            invariant
                j <= pkgs@.len(),
                seen <==> exists|k: int| 0 <= k < j && (#[trigger] pkgs@[k])@ == pkg@,
            decreases pkgs@.len() - j,
        {
            if text::same(pkgs[j].as_str(), pkg.as_str()) {
                assert(pkgs@[j as int]@ == pkg@);
                seen = true;
            }
            j += 1;
        }
        proof {
            let before = text::texts(pkgs@);
            if before.contains(pkg@) {
                let k = choose|k: int| 0 <= k < before.len() && before[k] == pkg@;
                assert(pkgs@[k]@ == pkg@);
            }
            if seen {
                let k = choose|k: int| 0 <= k < pkgs@.len() && (#[trigger] pkgs@[k])@ == pkg@;
                assert(before[k] == pkg@);
            }
        }
        if !seen {
            let ghost before = pkgs@;
            pkgs.push(pkg.clone());
            assert(text::texts(pkgs@) =~= text::texts(before).push(pkg@));
        }
        i += 1;
    }
    assert(all.take(i as int) =~= all);
    text::join2("sudo pacman -S --needed ", text::join(&pkgs, " ").as_str())
}

/// The lines of the message about missing tools.
pub open spec fn missing_lines(missing: Seq<(Seq<char>, Seq<char>)>) -> Seq<Seq<char>> {
    seq!["missing build dependencies:"@] + Seq::new(
        missing.len(),
        |i: int| "  "@ + missing[i].0 + " (from package "@ + missing[i].1 + ")"@,
    ) + seq![""@, hint(missing)]
}

/// The message about missing tools: each with its package, then the line that
/// installs them.
pub fn missing_deps_message(missing: &Vec<(String, String)>) -> (r: String)
    ensures
        r@ == text::joined(missing_lines(pairs(missing@)), "\n"@),
{
    let mut lines: Vec<String> = Vec::new();
    lines.push("missing build dependencies:".to_owned());
    let mut i: usize = 0;
    while i < missing.len()
        invariant
            i <= missing@.len(),
            lines@.len() == i + 1,
            lines@[0]@ == "missing build dependencies:"@,
            forall|j: int|
                1 <= j <= i ==> (#[trigger] lines@[j])@ == "  "@ + missing@[j - 1].0@
                    + " (from package "@ + missing@[j - 1].1@ + ")"@,
        decreases missing@.len() - i,
    {
        let mut line = text::join3("  ", missing[i].0.as_str(), " (from package ");
        line.append(missing[i].1.as_str());
        line.append(")");
        lines.push(line);
        i += 1;
    }
    let ghost before = lines@;
    lines.push("".to_owned());
    lines.push(install_hint(missing));
    assert(text::texts(lines@) =~= missing_lines(pairs(missing@)));
    text::join(&lines, "\n")
}

/// What a check before the build comes to.
#[derive(Debug)]
pub enum Preflight {
    Ready,
    /// A warning; the plan is shown all the same.
    Warn { message: String },
    /// The run is given up.
    Abort(BuildError),
    /// Nothing to check here.
    Skipped,
}

/// Judges the build tools: missing ones end a run and are a warning otherwise.
/// The language's own source, a directory, is looked for apart.
pub fn preflight_deps(run: bool, missing: Vec<(String, String)>, rust_src_ok: bool) -> (r:
    Preflight)
    ensures
        ({
            let all = if rust_src_ok {
                pairs(missing@)
            } else {
                pairs(missing@).push(dep("rust-src"@, "rust-src"@))
            };
            let text = text::joined(missing_lines(all), "\n"@);
            if all.len() == 0 {
                r is Ready
            } else if run {
                r matches Preflight::Abort(BuildError::MissingDeps { message }) && message@ == text
            } else {
                r matches Preflight::Warn { message } && message@ == text
            }
        }),
{
    let mut all = missing;
    if !rust_src_ok {
        push_dep(&mut all, "rust-src", "rust-src");
    }
    assert(pairs(all@).len() == all@.len());
    if all.len() == 0 {
        return Preflight::Ready;
    }
    let message = missing_deps_message(&all);
    if run {
        Preflight::Abort(BuildError::MissingDeps { message })
    } else {
        Preflight::Warn { message }
    }
}

// ---------------------------------------------------------------------------
// Memory carve

/// Position of the APU among the devices of the bus, by the texts of their
/// vendor and device nodes where readable.
pub fn bc250_pci_path(devices: &Vec<(Option<String>, Option<String>)>) -> (r: Option<usize>)
    ensures
        match r {
            Some(i) => i < devices@.len() && is_apu(devices@[i as int]) && forall|j: int|
                0 <= j < i ==> !is_apu(#[trigger] devices@[j]),
            None => forall|j: int| 0 <= j < devices@.len() ==> !is_apu(#[trigger] devices@[j]),
        },
{
    let mut i: usize = 0;
    while i < devices.len()
        invariant
            i <= devices@.len(),
            forall|j: int| 0 <= j < i ==> !is_apu(#[trigger] devices@[j]),
        decreases devices@.len() - i,
    {
        if let (Some(vendor), Some(device)) = (&devices[i].0, &devices[i].1) {
            if text::same(text::trim(vendor.as_str()), "0x1002") && text::same(
                text::trim(device.as_str()),
                "0x13fe",
            ) {
                return Some(i);
            }
        }
        i += 1;
    }
    None
}

/// The device is the APU.
pub open spec fn is_apu(d: (Option<String>, Option<String>)) -> bool {
    d.0 is Some && d.1 is Some && text::trimmed(d.0->0@) == "0x1002"@ && text::trimmed(d.1->0@)
        == "0x13fe"@
}

/// The base address in the sixth line of a device's resource table: its first
/// word, a hexadecimal number.
pub open spec fn bar_base(res: Seq<char>) -> Option<int> {
    let lines = text::lines_of(res);
    if lines.len() > 5 && text::words_of(lines[5]).len() > 0 {
        text::number(
            text::strip_all_front(text::words_of(lines[5])[0], "0x"@),
            16,
            u64::MAX as int,
        )
    } else {
        None
    }
}

/// The base address of the register window from a device's resource table.
pub fn mmio_base(res: &str) -> (r: Option<u64>)
    ensures
        r is Some <==> bar_base(res@) is Some,
        r is Some ==> bar_base(res@) == Some(r->0 as int),
{
    let lines = text::lines(res);
    assert(lines@.len() == text::slices(lines@).len());
    if lines.len() <= 5 {
        return None;
    }
    assert(lines@[5]@ == text::slices(lines@)[5]);
    let words = text::words(lines[5]);
    assert(words@.len() == text::slices(words@).len());
    if words.len() == 0 {
        return None;
    }
    assert(words@[0]@ == text::slices(words@)[0]);
    text::parse_number(text::trim_start_matches(words[0], "0x"), 16, u64::MAX)
}

/// What reading the memory carve came to.
#[derive(Clone, Copy, Debug, PartialEq, Eq, Structural)]
pub enum UmaReading {
    /// This host is another machine.
    NotBc250,
    /// The carve in MB.
    Carve(u64),
    Unreadable,
}

/// Judges the memory carve: another one than the series is validated at ends a
/// run and is a warning otherwise. One that cannot be read is not held against
/// the build.
pub fn preflight_uma(run: bool, uma: UmaReading) -> (r: Preflight)
    ensures
        match uma {
            UmaReading::NotBc250 => r is Skipped,
            UmaReading::Unreadable => r is Skipped,
            UmaReading::Carve(mb) => if mb == 512 {
                r is Ready
            } else if run {
                r == Preflight::Abort(BuildError::WrongUma { mb })
            } else {
                r matches Preflight::Warn { message } && message@ == uma_text(mb)
            },
        },
{
    match uma {
        UmaReading::NotBc250 => Preflight::Skipped,
        UmaReading::Unreadable => Preflight::Skipped,
        UmaReading::Carve(mb) => if mb == BC250_UMA_MB {
            Preflight::Ready
        } else if run {
            Preflight::Abort(BuildError::WrongUma { mb })
        } else {
            Preflight::Warn { message: uma_message(mb) }
        },
    }
}

// ---------------------------------------------------------------------------
// The plan

/// The name under which a patch is staged.
pub fn patch_file_name(id: &str) -> (r: String)
    ensures
        r@ == id@ + ".patch"@,
{
    text::join2(id, ".patch")
}

/// The first check of a build: a good target, and a package directory that
/// holds a package description. Returns the directory.
pub fn check_request(opts: &BuildOpts, has_pkgbuild: bool) -> (r: Result<String, BuildError>)
    ensures
        opts.target is Some && !good_target(opts.target->0@) ==> (r matches Err(
            BuildError::BadTarget { target },
        ) && target@ == opts.target->0@),
        opts.target is None || good_target(opts.target->0@) ==> match opts.pkgbuild_dir {
            None => r is Err && r->Err_0 is NoPkgbuildDir,
            Some(dir) => if has_pkgbuild {
                r is Ok && (r->Ok_0)@ == dir@
            } else {
                r matches Err(BuildError::MissingPkgbuild { dir: d }) && d@ == dir@
            },
        },
{
    if let Some(t) = &opts.target {
        match valid_target(t.as_str()) {
            Ok(()) => {},
            Err(e) => {
                return Err(e);
            },
        }
    }
    match &opts.pkgbuild_dir {
        None => Err(BuildError::NoPkgbuildDir),
        Some(dir) => if has_pkgbuild {
            Ok(dir.clone())
        } else {
            Err(BuildError::MissingPkgbuild { dir: dir.clone() })
        },
    }
}

/// The path's parts that name something.
pub open spec fn path_parts(path: Seq<char>) -> Seq<Seq<char>> {
    text::pieces(path, '/').filter(|p: Seq<char>| p.len() > 0 && p != "."@)
}

/// The path is the root user's home or below it.
pub open spec fn in_root_home(path: Seq<char>) -> bool {
    &&& path.len() > 0
    &&& path[0] == '/'
    &&& path_parts(path).len() > 0
    &&& path_parts(path)[0] == "root"@
}

fn below_root_home(path: &str) -> (r: bool)
    ensures
        r == in_root_home(path@),
{
    if path.is_empty() || path.get_char(0) != '/' {
        return false;
    }
    let cut = text::split_on(path, '/');
    let ghost all = text::pieces(path@, '/');
    let ghost keep = |p: Seq<char>| p.len() > 0 && p != "."@;
    assert(cut@.len() == text::slices(cut@).len());
    let mut i: usize = 0;
    assert(all.take(0).filter(keep).len() == 0) by {
        reveal(Seq::filter);
    }
    while i < cut.len()
        invariant
            i <= cut@.len(),
            text::slices(cut@) == all,
            all.len() == cut@.len(),
            all == text::pieces(path@, '/'),
            path@.len() > 0,
            path@[0] == '/',
            keep == (|p: Seq<char>| p.len() > 0 && p != "."@),
            all.take(i as int).filter(keep).len() == 0,
        decreases cut@.len() - i,
    {
        let p: &str = cut[i];
        proof {
            assert(p@ == all[i as int]);
            assert(all.take(i + 1) =~= all.take(i as int).push(p@));
            all.take(i as int).lemma_filter_push(p@, keep);
        }
        if !p.is_empty() && !text::same(p, ".") {
            proof {
                let first = all.take(i + 1).filter(keep);
                assert(first =~= seq![p@]);
                filter_prefix(all, keep, i + 1);
                assert(all.filter(keep).take(1)[0] == p@);
                assert(path_parts(path@) == all.filter(keep));
            }
            return text::same(p, "root");
        }
        i += 1;
    }
    assert(all.take(i as int) =~= all);
    false
}

proof fn filter_prefix(s: Seq<Seq<char>>, keep: spec_fn(Seq<char>) -> bool, n: int)
    requires
        0 <= n <= s.len(),
    ensures
        s.filter(keep).len() >= s.take(n).filter(keep).len(),
        s.filter(keep).take(s.take(n).filter(keep).len() as int) == s.take(n).filter(keep),
    decreases s.len() - n,
{
    if n == s.len() {
        assert(s.take(n) =~= s);
        assert(s.filter(keep).take(s.filter(keep).len() as int) =~= s.filter(keep));
    } else {
        filter_prefix(s, keep, n + 1);
        assert(s.take(n + 1) =~= s.take(n).push(s[n]));
        s.take(n).lemma_filter_push(s[n], keep);
        let a = s.take(n).filter(keep);
        let b = s.take(n + 1).filter(keep);
        assert(b.take(a.len() as int) =~= a);
        assert(s.filter(keep).take(a.len() as int) =~= s.filter(keep).take(b.len() as int).take(
            a.len() as int,
        ));
    }
}

/// Where the patches are staged: not in the root user's home where the steps
/// run as somebody else.
pub fn staging_dir(opts: &BuildOpts, uid: Option<u32>) -> (r: String)
    ensures
        r@ == (if uid is Some && in_root_home(opts.work_dir@) {
            "/var/tmp/aputune-build"@
        } else {
            opts.work_dir@
        }),
{
    if uid.is_some() && below_root_home(opts.work_dir.as_str()) {
        "/var/tmp/aputune-build".to_owned()
    } else {
        opts.work_dir.clone()
    }
}

/// The step that extracts the source, checksums and all.
pub open spec fn extract_view(pkgbuild: Seq<char>, uid: Option<u32>) -> StepView {
    StepView {
        desc: "extract + prepare CachyOS source (makepkg -o)"@,
        argv: seq!["makepkg"@, "-o"@, "--nodeps"@, "--noconfirm"@],
        cwd: pkgbuild,
        env: seq![],
        uid,
    }
}

/// The step that extracts the source.
pub fn extract_step(pkgbuild: &str, uid: Option<u32>) -> (r: Step)
    ensures
        r@ == extract_view(pkgbuild@, uid),
{
    let argv: [&str; 4] = ["makepkg", "-o", "--nodeps", "--noconfirm"];
    assert(text::slices(argv@) =~= seq!["makepkg"@, "-o"@, "--nodeps"@, "--noconfirm"@]);
    step("extract + prepare CachyOS source (makepkg -o)", pkgbuild, &argv).with_uid(uid)
}

/// The step that applies one patch: no fuzz, and never backwards.
pub open spec fn patch_view(
    p: Patch,
    pkgbuild: Seq<char>,
    patch_dir: Seq<char>,
    src: Seq<char>,
    uid: Option<u32>,
) -> StepView {
    StepView {
        desc: "apply "@ + p.id@ + " ("@ + p.title@ + ")"@,
        argv: seq![
            "patch"@,
            "-p1"@,
            "--forward"@,
            "--fuzz=0"@,
            "-d"@,
            src,
            "-i"@,
            text::path_join(patch_dir, p.id@ + ".patch"@),
        ],
        cwd: pkgbuild,
        env: seq![],
        uid,
    }
}

fn patch_step(
    p: &Patch,
    pkgbuild: &str,
    patch_dir: &str,
    src: &str,
    uid: Option<u32>,
) -> (r: Step)
    ensures
        r@ == patch_view(*p, pkgbuild@, patch_dir@, src@, uid),
{
    let file = text::join_path(patch_dir, patch_file_name(p.id).as_str());
    let mut desc = text::join3("apply ", p.id, " (");
    desc.append(p.title);
    desc.append(")");
    let argv: [&str; 8] = [
        "patch",
        "-p1",
        "--forward",
        "--fuzz=0",
        "-d",
        src,
        "-i",
        file.as_str(),
    ];
    assert(text::slices(argv@) =~= patch_view(*p, pkgbuild@, patch_dir@, src@, uid).argv);
    step(desc.as_str(), pkgbuild, &argv).with_uid(uid)
}

/// The step that rebuilds the package.
pub open spec fn rebuild_view(cc: Seq<char>, pkgbuild: Seq<char>, uid: Option<u32>) -> StepView {
    StepView {
        desc: "build patched kernel package (makepkg -e)"@,
        argv: seq![
            "makepkg"@,
            "-e"@,
            "--noextract"@,
            "--noprepare"@,
            "--noconfirm"@,
            "--nodeps"@,
            "--force"@,
        ],
        cwd: pkgbuild,
        env: seq![
            ("CC"@, cc),
            ("HOSTCC"@, cc),
            ("CXX"@, cxx_of(cc)),
            ("HOSTCXX"@, cxx_of(cc)),
        ],
        uid,
    }
}

fn rebuild_step(cc: &str, pkgbuild: &str, uid: Option<u32>) -> (r: Step)
    ensures
        r@ == rebuild_view(cc@, pkgbuild@, uid),
{
    proof {
        reveal_strlit("gcc");
    }
    let cxx = text::replace(cc, "gcc", "g++");
    let argv: [&str; 7] = [
        "makepkg",
        "-e",
        "--noextract",
        "--noprepare",
        "--noconfirm",
        "--nodeps",
        "--force",
    ];
    assert(text::slices(argv@) =~= rebuild_view(cc@, pkgbuild@, uid).argv);
    let r = step("build patched kernel package (makepkg -e)", pkgbuild, &argv).with_env(
        "CC",
        cc,
    ).with_env("HOSTCC", cc).with_env("CXX", cxx.as_str()).with_env(
        "HOSTCXX",
        cxx.as_str(),
    ).with_uid(uid);
    assert(r@.env =~= rebuild_view(cc@, pkgbuild@, uid).env);
    r
}

/// The settings of the GPU module that arm the units.
pub open spec fn unit_settings(mode: u32) -> Seq<char> {
    "options amdgpu bc250_cc_write_mode="@ + text::dec(mode as nat)
        + "\\noptions amdgpu bc250_flush_by_runlist=1\\n"@
}

/// The shell line that installs the package and arms the units: on a target,
/// which then reboots, or here.
pub open spec fn install_line(pkgbuild: Seq<char>, target: Option<Seq<char>>, mode: u32) -> Seq<
    char,
> {
    match target {
        Some(t) => "set -e; scp "@ + quoted(pkgbuild) + "/linux-cachyos-*.pkg.tar.zst "@ + t
            + ":/tmp/; ssh "@ + t
            + " 'sudo pacman -U --noconfirm /tmp/linux-cachyos-*.pkg.tar.zst && "@ + REMOTE_INSTALL@
            + unit_settings(mode) + REMOTE_ARM@ + "options amdgpu bc250_sdma_fw=navi12\\n"@
            + "\"; fi; CONF=\"$CONF\"\""@ + "options amdgpu bc250_early_sdma_trap=1\\n"@
            + "\"; printf \"$CONF\" | sudo tee /etc/modprobe.d/aputune-40cu.conf && "@
            + "sudo mkinitcpio -P && "@ + "sudo systemctl reboot'"@,
        None => "set -e; sudo pacman -U --noconfirm "@ + quoted(pkgbuild)
            + "/linux-cachyos-*.pkg.tar.zst; "@ + LOCAL_INSTALL@ + unit_settings(mode)
            + LOCAL_ARM@ + "options amdgpu bc250_sdma_fw=navi12\\n"@ + "'; fi; CONF=\"$CONF\"'"@
            + "options amdgpu bc250_early_sdma_trap=1\\n"@
            + "'; printf \"$CONF\" | sudo tee /etc/modprobe.d/aputune-40cu.conf; "@
            + "sudo mkinitcpio -P; "@ + "echo 'reboot to load the liberated kernel'"@,
    }
}

/// The step that installs the package and arms the units, as the current user.
pub open spec fn install_view(pkgbuild: Seq<char>, target: Option<Seq<char>>, mode: u32) -> StepView {
    StepView {
        desc: "install package + arm cc_write_mode="@ + text::dec(mode as nat) + (if mode == 3 {
            " (40-CU)"@
        } else {
            ""@
        }) + " + SDMA(navi12+trap, fw-gated) + initramfs"@ + (match target {
            Some(t) => " + reboot ("@ + t + ")"@,
            None => ""@,
        }),
        argv: seq!["sh"@, "-c"@, install_line(pkgbuild, target, mode)],
        cwd: pkgbuild,
        env: seq![],
        uid: None,
    }
}

/// The target's text.
pub open spec fn target_text(t: Option<String>) -> Option<Seq<char>> {
    match t {
        Some(s) => Some(s@),
        None => None,
    }
}

fn install_step(opts: &BuildOpts, pkgbuild: &str) -> (r: Step)
    ensures
        r@ == install_view(pkgbuild@, target_text(opts.target), opts.cc_mode),
{
    let mode = text::decimal(opts.cc_mode as u64);
    let dir = sh_quote(pkgbuild);
    let mut settings = text::join2("options amdgpu bc250_cc_write_mode=", mode.as_str());
    settings.append("\\noptions amdgpu bc250_flush_by_runlist=1\\n");
    let line: String = match &opts.target {
        Some(t) => {
            let mut l = text::join3(
                "set -e; scp ",
                dir.as_str(),
                "/linux-cachyos-*.pkg.tar.zst ",
            );
            l.append(t.as_str());
            l.append(":/tmp/; ssh ");
            l.append(t.as_str());
            l.append(" 'sudo pacman -U --noconfirm /tmp/linux-cachyos-*.pkg.tar.zst && ");
            l.append(REMOTE_INSTALL);
            l.append(settings.as_str());
            l.append(REMOTE_ARM);
            l.append("options amdgpu bc250_sdma_fw=navi12\\n");
            l.append("\"; fi; CONF=\"$CONF\"\"");
            l.append("options amdgpu bc250_early_sdma_trap=1\\n");
            l.append("\"; printf \"$CONF\" | sudo tee /etc/modprobe.d/aputune-40cu.conf && ");
            l.append("sudo mkinitcpio -P && ");
            l.append("sudo systemctl reboot'");
            l
        },
        None => {
            let mut l = text::join3(
                "set -e; sudo pacman -U --noconfirm ",
                dir.as_str(),
                "/linux-cachyos-*.pkg.tar.zst; ",
            );
            l.append(LOCAL_INSTALL);
            l.append(settings.as_str());
            l.append(LOCAL_ARM);
            l.append("options amdgpu bc250_sdma_fw=navi12\\n");
            l.append("'; fi; CONF=\"$CONF\"'");
            l.append("options amdgpu bc250_early_sdma_trap=1\\n");
            l.append("'; printf \"$CONF\" | sudo tee /etc/modprobe.d/aputune-40cu.conf; ");
            l.append("sudo mkinitcpio -P; ");
            l.append("echo 'reboot to load the liberated kernel'");
            l
        },
    };
    let mut desc = text::join2("install package + arm cc_write_mode=", mode.as_str());
    if opts.cc_mode == 3 {
        desc.append(" (40-CU)");
    } else {
        desc.append("");
    }
    desc.append(" + SDMA(navi12+trap, fw-gated) + initramfs");
    match &opts.target {
        Some(t) => {
            desc.append(text::join3(" + reboot (", t.as_str(), ")").as_str());
        },
        None => {
            desc.append("");
        },
    }
    let argv: [&str; 3] = ["sh", "-c", line.as_str()];
    assert(text::slices(argv@) =~= install_view(
        pkgbuild@,
        target_text(opts.target),
        opts.cc_mode,
    ).argv);
    step(desc.as_str(), pkgbuild, &argv)
}

/// The steps that follow the extraction: every patch of the series in order,
/// the rebuild, the installation.
pub open spec fn plan_views(
    opts: BuildOpts,
    pkgbuild: Seq<char>,
    patch_dir: Seq<char>,
    src: Seq<char>,
    uid: Option<u32>,
) -> Seq<StepView> {
    Seq::new(
        24,
        |i: int| patch_view(patches::series_entry(i), pkgbuild, patch_dir, src, uid),
    ) + seq![
        rebuild_view(opts.cc@, pkgbuild, uid),
        install_view(pkgbuild, target_text(opts.target), opts.cc_mode),
    ]
}

/// The steps that follow the extraction of the source into `src`. A missing
/// package directory or a bad target is refused.
pub fn post_extract_plan(opts: &BuildOpts, patch_dir: &str, src: &str, uid: Option<u32>) -> (r:
    Result<Vec<Step>, BuildError>)
    ensures
        match opts.pkgbuild_dir {
            None => r is Err && r->Err_0 is NoPkgbuild,
            Some(dir) => if opts.target is Some && !good_target(opts.target->0@) {
                r matches Err(BuildError::BadTarget { target }) && target@ == opts.target->0@
            } else {
                r is Ok && step_views((r->Ok_0)@) == plan_views(
                    *opts,
                    dir@,
                    patch_dir@,
                    src@,
                    uid,
                )
            },
        },
{
    let pkgbuild: &String = match &opts.pkgbuild_dir {
        Some(dir) => dir,
        None => {
            return Err(BuildError::NoPkgbuild);
        },
    };
    if let Some(t) = &opts.target {
        match valid_target(t.as_str()) {
            Ok(()) => {},
            Err(e) => {
                return Err(e);
            },
        }
    }
    let all = patches::series();
    let mut steps: Vec<Step> = Vec::new();
    let mut i: usize = 0;
    while i < all.len()
        invariant
            i <= all@.len(),
            all@ == Seq::new(24, |k: int| patches::series_entry(k)),
            steps@.len() == i,
            forall|j: int|
                0 <= j < i ==> (#[trigger] steps@[j])@ == patch_view(
                    patches::series_entry(j),
                    pkgbuild@,
                    patch_dir@,
                    src@,
                    uid,
                ),
        decreases all@.len() - i,
    {
        steps.push(patch_step(&all[i], pkgbuild.as_str(), patch_dir, src, uid));
        i += 1;
    }
    steps.push(rebuild_step(opts.cc.as_str(), pkgbuild.as_str(), uid));
    steps.push(install_step(opts, pkgbuild.as_str()));
    assert(step_views(steps@) =~= plan_views(*opts, pkgbuild@, patch_dir@, src@, uid));
    Ok(steps)
}

/// The plan as it is shown: the extraction and the steps after it, each with its
/// number, its purpose and its command line, then the check of a target.
pub open spec fn preview_of(steps: Seq<StepView>, target: Option<Seq<char>>) -> Seq<Seq<char>> {
    let n = steps.len() + (if target is Some { 1nat } else { 0nat });
    let body = Seq::new(
        2 * steps.len(),
        |k: int|
            if k % 2 == 0 {
                "["@ + text::dec((k / 2 + 1) as nat) + "/"@ + text::dec(n) + "] "@ + steps[k / 2].desc
            } else {
                "      $ "@ + env_text(steps[k / 2].env) + text::joined(steps[k / 2].argv, " "@)
            },
    );
    match target {
        Some(t) => body.push(
            "["@ + text::dec(n) + "/"@ + text::dec(n) + "] verify post-reboot: poll "@ + t
                + " back online (<= 300s), push this arieltune binary, `doctor --json`, assert new kernel + full series"@,
        ),
        None => body,
    }
}

/// The lines that show a plan.
pub fn preview_lines(steps: &Vec<Step>, target: &Option<String>) -> (r: Vec<String>)
    requires
        steps@.len() < usize::MAX,
    ensures
        text::texts(r@) == preview_of(step_views(steps@), target_text(*target)),
{
    let n: usize = steps.len() + if target.is_some() {
        1
    } else {
        0
    };
    let count = text::decimal(n as u64);
    let ghost want = preview_of(step_views(steps@), target_text(*target));
    let mut lines: Vec<String> = Vec::new();
    let mut i: usize = 0;
    while i < steps.len()
        invariant
            i <= steps@.len(),
            steps@.len() < usize::MAX,
            n == steps@.len() + (if target is Some { 1int } else { 0int }),
            count@ == text::dec(n as nat),
            lines@.len() == 2 * i,
            want == preview_of(step_views(steps@), target_text(*target)),
            forall|k: int| 0 <= k < 2 * i ==> (#[trigger] lines@[k])@ == want[k],
        decreases steps@.len() - i,
    {
        let mut head = text::join3("[", text::decimal((i + 1) as u64).as_str(), "/");
        head.append(count.as_str());
        head.append("] ");
        head.append(steps[i].desc.as_str());
        let mut cmd = "      $ ".to_owned();
        let shown = steps[i].render();
        cmd.append(shown.as_str());
        proof {
            let v = step_views(steps@)[i as int];
            assert(v == steps@[i as int]@);
            assert(want[2 * i] == head@);
            assert((2 * i + 1) / 2 == i && (2 * i + 1) % 2 == 1);
            assert("      $ "@ + (env_text(v.env) + text::joined(v.argv, " "@)) =~= "      $ "@
                + env_text(v.env) + text::joined(v.argv, " "@));
            assert(want[2 * i + 1] == cmd@);
        }
        lines.push(head);
        lines.push(cmd);
        i += 1;
    }
    if let Some(t) = target {
        let mut last = text::join3("[", count.as_str(), "/");
        last.append(count.as_str());
        last.append("] verify post-reboot: poll ");
        last.append(t.as_str());
        last.append(
            " back online (<= 300s), push this arieltune binary, `doctor --json`, assert new kernel + full series",
        );
        lines.push(last);
    }
    assert(text::texts(lines@) =~= want);
    lines
}

/// The extracted source among the entries of the source directory (name, and
/// whether it is a directory): the one kernel tree. None or several are refused.
pub fn extracted_src(src: &str, entries: &Vec<(String, bool)>) -> (r: Result<String, BuildError>)
    ensures
        ({
            let hits = trees(entries@);
            if hits.len() == 0 {
                r matches Err(BuildError::NoSource { src: s }) && s@ == src@
            } else if hits.len() == 1 {
                r is Ok && (r->Ok_0)@ == text::path_join(src@, hits[0])
            } else {
                r matches Err(BuildError::ManySources { count, src: s }) && count == hits.len()
                    && s@ == src@
            }
        }),
{
    let mut first: Option<usize> = None;
    let mut count: usize = 0;
    let mut i: usize = 0;
    while i < entries.len()
        invariant
            i <= entries@.len(),
            count == trees(entries@.take(i as int)).len(),
            count <= i,
            count == 0 <==> first is None,
            first is Some ==> first->0 < i && trees(entries@.take(i as int))[0]
                == entries@[first->0 as int].0@,
        decreases entries@.len() - i,
    {
        assert(entries@.take(i + 1).drop_last() =~= entries@.take(i as int));
        if entries[i].1 && text::starts_with(entries[i].0.as_str(), "cachyos-") {
            if count == 0 {
                first = Some(i);
            }
            count += 1;
        }
        i += 1;
    }
    assert(entries@.take(i as int) =~= entries@);
    match first {
        None => Err(BuildError::NoSource { src: src.to_owned() }),
        Some(k) => if count == 1 {
            Ok(text::join_path(src, entries[k].0.as_str()))
        } else {
            Err(BuildError::ManySources { count, src: src.to_owned() })
        },
    }
}

/// The names of the kernel trees among directory entries.
pub open spec fn trees(entries: Seq<(String, bool)>) -> Seq<Seq<char>>
    decreases entries.len(),
{
    if entries.len() == 0 {
        seq![]
    } else if entries.last().1 && text::begins(entries.last().0@, "cachyos-"@) {
        trees(entries.drop_last()).push(entries.last().0@)
    } else {
        trees(entries.drop_last())
    }
}

// ---------------------------------------------------------------------------
// Verifying a target

/// What follows a poll of a rebooting target.
#[derive(Debug)]
pub enum PollStep {
    Online,
    /// Wait, then poll again.
    Wait,
    GiveUp(BuildError),
}

/// What follows a poll: a target that answers is online; one that does not is
/// polled again until the time is up.
pub fn poll_target_online(target: &str, up: bool, elapsed_ns: u64) -> (r: PollStep)
    ensures
        up ==> r is Online,
        !up && elapsed_ns < VERIFY_POLL_TIMEOUT_S * 1_000_000_000 ==> r is Wait,
        !up && elapsed_ns >= VERIFY_POLL_TIMEOUT_S * 1_000_000_000 ==> (r matches PollStep::GiveUp(
            BuildError::NotOnline { target: t },
        ) && t@ == target@),
{
    if up {
        PollStep::Online
    } else if elapsed_ns >= VERIFY_POLL_TIMEOUT_S * 1_000_000_000 {
        PollStep::GiveUp(BuildError::NotOnline { target: target.to_owned() })
    } else {
        PollStep::Wait
    }
}

/// Judges a rebooted target by its own report: it has to run another kernel
/// than before, with the whole series live. Returns the line that says so.
pub fn verify_remote(target: &str, pre_kernel: &str, d: &DoctorJson) -> (r: Result<
    String,
    BuildError,
>)
    ensures
        d.kernel@ == pre_kernel@ ==> (r matches Err(BuildError::OldKernel { target: t, kernel })
            && t@ == target@ && kernel@ == pre_kernel@),
        d.kernel@ != pre_kernel@ && !d.fully ==> (r matches Err(
            BuildError::NotFullyLive { target: t, kernel, present, total },
        ) && t@ == target@ && kernel@ == d.kernel@ && present == d.present && total == d.total),
        d.kernel@ != pre_kernel@ && d.fully ==> r is Ok && (r->Ok_0)@ == "verified: "@ + target@
            + " booted "@ + d.kernel@ + ", "@ + text::dec(d.present as nat) + "/"@ + text::dec(
            d.total as nat,
        ) + " patches live"@,
{
    if text::same(d.kernel.as_str(), pre_kernel) {
        return Err(
            BuildError::OldKernel { target: target.to_owned(), kernel: pre_kernel.to_owned() },
        );
    }
    if !d.fully {
        return Err(
            BuildError::NotFullyLive {
                target: target.to_owned(),
                kernel: d.kernel.clone(),
                present: d.present,
                total: d.total,
            },
        );
    }
    let mut line = text::join3("verified: ", target, " booted ");
    line.append(d.kernel.as_str());
    line.append(", ");
    line.append(text::decimal(d.present as u64).as_str());
    line.append("/");
    line.append(text::decimal(d.total as u64).as_str());
    line.append(" patches live");
    Ok(line)
}

// ---------------------------------------------------------------------------
// Laws

/// Every patch of the series is applied, each without fuzz and never backwards,
/// and all of them before the rebuild.
pub proof fn every_patch_is_applied_exactly(
    opts: BuildOpts,
    pkgbuild: Seq<char>,
    patch_dir: Seq<char>,
    src: Seq<char>,
    uid: Option<u32>,
    i: int,
)
    requires
        0 <= i < 24,
    ensures
        ({
            let plan = plan_views(opts, pkgbuild, patch_dir, src, uid);
            &&& plan.len() == 24 + 2
            &&& plan[i].argv[0] == "patch"@
            &&& plan[i].argv.contains("--fuzz=0"@)
            &&& plan[i].argv.contains("--forward"@)
            &&& plan[i].argv.last() == text::path_join(
                patch_dir,
                patches::series_entry(i).id@ + ".patch"@,
            )
            &&& plan[24] == rebuild_view(opts.cc@, pkgbuild, uid)
        }),
{
    let plan = plan_views(opts, pkgbuild, patch_dir, src, uid);
    assert(plan[i] == patch_view(patches::series_entry(i), pkgbuild, patch_dir, src, uid));
    assert(plan[i].argv[3] == "--fuzz=0"@);
    assert(plan[i].argv[2] == "--forward"@);
}

/// The installation is the last step and the only one that does not drop to the
/// build user.
pub proof fn only_the_installation_keeps_its_user(
    opts: BuildOpts,
    pkgbuild: Seq<char>,
    patch_dir: Seq<char>,
    src: Seq<char>,
    uid: Option<u32>,
    i: int,
)
    requires
        0 <= i < 26,
    ensures
        plan_views(opts, pkgbuild, patch_dir, src, uid)[i].uid == (if i == 25 { None } else { uid }),
{
}

/// Every patch goes into the extracted source tree, with one directory stripped,
/// from its own file in the patch directory. The steps run in the package
/// directory.
pub proof fn patches_go_into_the_extracted_tree(
    opts: BuildOpts,
    pkgbuild: Seq<char>,
    patch_dir: Seq<char>,
    src: Seq<char>,
    uid: Option<u32>,
    i: int,
)
    requires
        0 <= i < 24,
        patch_dir.len() > 0,
        patch_dir.last() != '/',
    ensures
        ({
            let step = plan_views(opts, pkgbuild, patch_dir, src, uid)[i];
            &&& step.argv.len() == 8
            &&& step.argv[1] == "-p1"@
            &&& step.argv[4] == "-d"@ && step.argv[5] == src
            &&& step.argv[6] == "-i"@ && step.argv[7] == patch_dir + "/"@
                + patches::series_entry(i).id@ + ".patch"@
            &&& step.cwd == pkgbuild
            &&& step.env.len() == 0
            &&& step.uid == uid
        }),
{
    let step = plan_views(opts, pkgbuild, patch_dir, src, uid)[i];
    assert(step == patch_view(patches::series_entry(i), pkgbuild, patch_dir, src, uid));
    assert(step.argv[7] =~= patch_dir + "/"@ + patches::series_entry(i).id@ + ".patch"@);
}

/// Two patches of a plan differ in their files alone: what the plan does with
/// one it does with every other, in the order of the series.
pub proof fn patches_are_treated_alike(
    opts: BuildOpts,
    pkgbuild: Seq<char>,
    patch_dir: Seq<char>,
    src: Seq<char>,
    uid: Option<u32>,
    i: int,
    j: int,
)
    requires
        0 <= i < 24,
        0 <= j < 24,
    ensures
        ({
            let plan = plan_views(opts, pkgbuild, patch_dir, src, uid);
            &&& plan[i].argv.take(7) =~= plan[j].argv.take(7)
            &&& plan[i].cwd == plan[j].cwd && plan[i].uid == plan[j].uid
            &&& plan[i].argv[7] == plan[j].argv[7] <== patches::series_entry(i).id@
                == patches::series_entry(j).id@
        }),
{
}

/// The rebuild neither extracts nor prepares the source again, in the package
/// directory, with the chosen compiler for the kernel and for its tools.
pub proof fn rebuild_keeps_the_patched_source(
    opts: BuildOpts,
    pkgbuild: Seq<char>,
    patch_dir: Seq<char>,
    src: Seq<char>,
    uid: Option<u32>,
)
    ensures
        ({
            let step = plan_views(opts, pkgbuild, patch_dir, src, uid)[24];
            &&& step.argv[0] == "makepkg"@ && step.argv[1] == "-e"@
            &&& step.argv.contains("--noextract"@) && step.argv.contains("--noprepare"@)
            &&& step.argv.contains("--force"@) && step.argv.contains("--noconfirm"@)
            &&& step.argv.contains("--nodeps"@) && step.argv.len() == 7
            &&& step.cwd == pkgbuild
            &&& step.uid == uid
            &&& step.env =~= seq![
                ("CC"@, opts.cc@),
                ("HOSTCC"@, opts.cc@),
                ("CXX"@, cxx_of(opts.cc@)),
                ("HOSTCXX"@, cxx_of(opts.cc@)),
            ]
        }),
{
    let step = plan_views(opts, pkgbuild, patch_dir, src, uid)[24];
    assert(step == rebuild_view(opts.cc@, pkgbuild, uid));
    assert(step.argv[2] == "--noextract"@ && step.argv[3] == "--noprepare"@);
    assert(step.argv[4] == "--noconfirm"@ && step.argv[5] == "--nodeps"@);
    assert(step.argv[6] == "--force"@);
}

/// The C++ compiler of `gcc` with a suffix is `g++` with that suffix; a compiler
/// without `gcc` in its name is its own companion.
pub proof fn companion_compiler(suffix: Seq<char>)
    requires
        !text::occurs(suffix, "gcc"@),
    ensures
        cxx_of("gcc"@ + suffix) == "g++"@ + suffix,
        cxx_of(suffix) == suffix,
{
    let cc = "gcc"@ + suffix;
    reveal_strlit("gcc");
    text::nothing_to_replace(suffix, "gcc"@, "g++"@);
    assert(cc.subrange(0, 3) =~= "gcc"@);
    assert(text::begins(cc, "gcc"@));
    assert(text::after(cc, 3) =~= suffix);
}

/// The extraction checks the source: it only extracts, in the package directory,
/// and no option of it skips a checksum or a signature.
pub proof fn extraction_checks_the_source(pkgbuild: Seq<char>, uid: Option<u32>, i: int)
    ensures
        ({
            let step = extract_view(pkgbuild, uid);
            &&& step.argv[0] == "makepkg"@ && step.argv[1] == "-o"@
            &&& step.cwd == pkgbuild && step.uid == uid && step.env.len() == 0
            &&& 0 <= i < step.argv.len() ==> step.argv[i] != "--skipinteg"@ && step.argv[i]
                != "--skipchecksums"@ && step.argv[i] != "--skippgpcheck"@ && step.argv[i] != "-e"@
        }),
{
    reveal_strlit("makepkg");
    reveal_strlit("-o");
    reveal_strlit("-e");
    reveal_strlit("--nodeps");
    reveal_strlit("--noconfirm");
    reveal_strlit("--skipinteg");
    reveal_strlit("--skipchecksums");
    reveal_strlit("--skippgpcheck");
    assert("-o"@[1] != "-e"@[1]);
    assert("--noconfirm"@[2] != "--skipinteg"@[2]);
    assert("makepkg"@.len() == 7 && "-o"@.len() == 2 && "-e"@.len() == 2 && "--nodeps"@.len() == 8);
    assert("--noconfirm"@.len() == 11 && "--skipinteg"@.len() == 11);
    assert("--skipchecksums"@.len() == 15 && "--skippgpcheck"@.len() == 14);
    let argv = extract_view(pkgbuild, uid).argv;
    assert(argv.len() == 4);
    assert(argv[0] == "makepkg"@ && argv[1] == "-o"@ && argv[2] == "--nodeps"@ && argv[3]
        == "--noconfirm"@);
}

/// An installation on this host stops at the first error and installs the
/// package from the package directory; it arms the chosen mode with its
/// settings, saves them and rebuilds the boot image, and never reboots.
pub proof fn local_installation(pkgbuild: Seq<char>, mode: u32)
    ensures
        ({
            let step = install_view(pkgbuild, None, mode);
            let line = step.argv[2];
            &&& step.argv.len() == 3 && step.argv[0] == "sh"@ && step.argv[1] == "-c"@
            &&& step.uid is None && step.cwd == pkgbuild
            &&& text::occurs_at(
                line,
                "set -e; sudo pacman -U --noconfirm "@ + quoted(pkgbuild)
                    + "/linux-cachyos-*.pkg.tar.zst; "@,
                0,
            )
            &&& text::occurs(
                line,
                "options amdgpu bc250_cc_write_mode="@ + text::dec(mode as nat)
                    + "\\noptions amdgpu bc250_flush_by_runlist=1\\n"@,
            )
            &&& text::occurs(line, "options amdgpu bc250_sdma_fw=navi12\\n"@)
            &&& text::occurs(line, "options amdgpu bc250_early_sdma_trap=1\\n"@)
            &&& text::occurs(
                line,
                "'; printf \"$CONF\" | sudo tee /etc/modprobe.d/aputune-40cu.conf; "@
                    + "sudo mkinitcpio -P; "@ + "echo 'reboot to load the liberated kernel'"@,
            )
        }),
{
    let line = install_line(pkgbuild, None, mode);
    let head = "set -e; sudo pacman -U --noconfirm "@ + quoted(pkgbuild)
        + "/linux-cachyos-*.pkg.tar.zst; "@;
    let modes = unit_settings(mode);
    let fw = "options amdgpu bc250_sdma_fw=navi12\\n"@;
    let fi = "'; fi; CONF=\"$CONF\"'"@;
    let trap = "options amdgpu bc250_early_sdma_trap=1\\n"@;
    let end = "'; printf \"$CONF\" | sudo tee /etc/modprobe.d/aputune-40cu.conf; "@
        + "sudo mkinitcpio -P; "@ + "echo 'reboot to load the liberated kernel'"@;
    let none: Seq<char> = seq![];
    text::part_occurs(none, head, LOCAL_INSTALL@ + modes + LOCAL_ARM@ + fw + fi + trap + end);
    assert(line =~= none + head + (LOCAL_INSTALL@ + modes + LOCAL_ARM@ + fw + fi + trap + end));
    text::part_occurs(head + LOCAL_INSTALL@, modes, LOCAL_ARM@ + fw + fi + trap + end);
    assert(line =~= (head + LOCAL_INSTALL@) + modes + (LOCAL_ARM@ + fw + fi + trap + end));
    text::part_occurs(head + LOCAL_INSTALL@ + modes + LOCAL_ARM@, fw, fi + trap + end);
    assert(line =~= (head + LOCAL_INSTALL@ + modes + LOCAL_ARM@) + fw + (fi + trap + end));
    text::part_occurs(head + LOCAL_INSTALL@ + modes + LOCAL_ARM@ + fw + fi, trap, end);
    assert(line =~= (head + LOCAL_INSTALL@ + modes + LOCAL_ARM@ + fw + fi) + trap + end);
    text::part_occurs(head + LOCAL_INSTALL@ + modes + LOCAL_ARM@ + fw + fi + trap, end, none);
    assert(line =~= (head + LOCAL_INSTALL@ + modes + LOCAL_ARM@ + fw + fi + trap) + end + none);
}

/// An installation on a target stops at the first error, copies the package
/// there and installs it there; it arms the chosen mode with its settings, saves
/// them, rebuilds the boot image and reboots the target, each where the one
/// before went well.
pub proof fn remote_installation(pkgbuild: Seq<char>, t: Seq<char>, mode: u32)
    ensures
        ({
            let step = install_view(pkgbuild, Some(t), mode);
            let line = step.argv[2];
            &&& step.argv.len() == 3 && step.argv[0] == "sh"@ && step.argv[1] == "-c"@
            &&& step.uid is None && step.cwd == pkgbuild
            &&& text::occurs_at(
                line,
                "set -e; scp "@ + quoted(pkgbuild) + "/linux-cachyos-*.pkg.tar.zst "@ + t
                    + ":/tmp/; ssh "@ + t
                    + " 'sudo pacman -U --noconfirm /tmp/linux-cachyos-*.pkg.tar.zst && "@,
                0,
            )
            &&& text::occurs(
                line,
                "options amdgpu bc250_cc_write_mode="@ + text::dec(mode as nat)
                    + "\\noptions amdgpu bc250_flush_by_runlist=1\\n"@,
            )
            &&& text::occurs(line, "options amdgpu bc250_sdma_fw=navi12\\n"@)
            &&& text::occurs(line, "options amdgpu bc250_early_sdma_trap=1\\n"@)
            &&& text::occurs(
                line,
                "\"; printf \"$CONF\" | sudo tee /etc/modprobe.d/aputune-40cu.conf && "@
                    + "sudo mkinitcpio -P && "@ + "sudo systemctl reboot'"@,
            )
        }),
{
    let line = install_line(pkgbuild, Some(t), mode);
    let head = "set -e; scp "@ + quoted(pkgbuild) + "/linux-cachyos-*.pkg.tar.zst "@ + t
        + ":/tmp/; ssh "@ + t + " 'sudo pacman -U --noconfirm /tmp/linux-cachyos-*.pkg.tar.zst && "@;
    let modes = unit_settings(mode);
    let fw = "options amdgpu bc250_sdma_fw=navi12\\n"@;
    let fi = "\"; fi; CONF=\"$CONF\"\""@;
    let trap = "options amdgpu bc250_early_sdma_trap=1\\n"@;
    let end = "\"; printf \"$CONF\" | sudo tee /etc/modprobe.d/aputune-40cu.conf && "@
        + "sudo mkinitcpio -P && "@ + "sudo systemctl reboot'"@;
    let none: Seq<char> = seq![];
    text::part_occurs(none, head, REMOTE_INSTALL@ + modes + REMOTE_ARM@ + fw + fi + trap + end);
    assert(line =~= none + head + (REMOTE_INSTALL@ + modes + REMOTE_ARM@ + fw + fi + trap + end));
    text::part_occurs(head + REMOTE_INSTALL@, modes, REMOTE_ARM@ + fw + fi + trap + end);
    assert(line =~= (head + REMOTE_INSTALL@) + modes + (REMOTE_ARM@ + fw + fi + trap + end));
    text::part_occurs(head + REMOTE_INSTALL@ + modes + REMOTE_ARM@, fw, fi + trap + end);
    assert(line =~= (head + REMOTE_INSTALL@ + modes + REMOTE_ARM@) + fw + (fi + trap + end));
    text::part_occurs(head + REMOTE_INSTALL@ + modes + REMOTE_ARM@ + fw + fi, trap, end);
    assert(line =~= (head + REMOTE_INSTALL@ + modes + REMOTE_ARM@ + fw + fi) + trap + end);
    text::part_occurs(head + REMOTE_INSTALL@ + modes + REMOTE_ARM@ + fw + fi + trap, end, none);
    assert(line =~= (head + REMOTE_INSTALL@ + modes + REMOTE_ARM@ + fw + fi + trap) + end + none);
}

/// A build on this host needs one tool more than one for a target: the one that
/// rebuilds the boot image. Both need the chosen compiler and its companion.
pub proof fn tools_of_a_build(cc: Seq<char>)
    ensures
        deps_of(cc, false) =~= deps_of(cc, true).push(("mkinitcpio"@, "mkinitcpio"@)),
        deps_of(cc, true).len() == 16,
        deps_of(cc, true)[1] == (cc, "gcc15"@),
        deps_of(cc, true)[2] == (cxx_of(cc), "gcc15"@),
        deps_of(cc, true).contains(("patch"@, "base-devel"@)),
        deps_of(cc, true).contains(("makepkg"@, "pacman"@)),
        deps_of(cc, true).contains(("rustc"@, "rust"@)),
        deps_of(cc, true).contains(("bindgen"@, "rust-bindgen"@)),
        deps_of(cc, true).contains(("pahole"@, "pahole"@)),
        deps_of(cc, true).contains(("ld.lld"@, "lld"@)),
{
    let d = deps_of(cc, true);
    assert(d[0] == ("makepkg"@, "pacman"@) && d[4] == ("patch"@, "base-devel"@));
    assert(d[7] == ("ld.lld"@, "lld"@) && d[13] == ("pahole"@, "pahole"@));
    assert(d[14] == ("rustc"@, "rust"@) && d[15] == ("bindgen"@, "rust-bindgen"@));
}

/// The packages to install are those of the missing tools, all of them and each
/// once.
pub proof fn packages_are_named_once(missing: Seq<(Seq<char>, Seq<char>)>)
    ensures
        forall|i: int| 0 <= i < missing.len() ==> packages(missing).contains(
            (#[trigger] missing[i]).1,
        ),
        forall|p: Seq<char>| #[trigger]
            packages(missing).contains(p) ==> exists|i: int|
                0 <= i < missing.len() && (#[trigger] missing[i]).1 == p,
        packages(missing).no_duplicates(),
    decreases missing.len(),
{
    if missing.len() > 0 {
        let rest = missing.drop_last();
        let before = packages(rest);
        let all = packages(missing);
        packages_are_named_once(rest);
        assert forall|i: int| 0 <= i < missing.len() implies all.contains(
            (#[trigger] missing[i]).1,
        ) by {
            if i < rest.len() {
                assert(rest[i] == missing[i]);
                let k = choose|k: int| 0 <= k < before.len() && before[k] == rest[i].1;
                assert(all[k] == missing[i].1);
            } else if !before.contains(missing.last().1) {
                assert(all[all.len() - 1] == missing[i].1);
            }
        }
        assert forall|p: Seq<char>| #[trigger] all.contains(p) implies exists|i: int|
            0 <= i < missing.len() && (#[trigger] missing[i]).1 == p by {
            let k = choose|k: int| 0 <= k < all.len() && all[k] == p;
            if k < before.len() {
                assert(before.contains(p)) by {
                    assert(before[k] == p);
                }
                let i = choose|i: int| 0 <= i < rest.len() && (#[trigger] rest[i]).1 == p;
                assert(missing[i].1 == p);
            } else {
                assert(missing[missing.len() - 1].1 == p);
            }
        }
    }
}

/// A step is shown by two lines, its number of all with its purpose, and its
/// command; a target adds the line of its own check.
pub proof fn every_step_is_shown(steps: Seq<StepView>, target: Option<Seq<char>>, i: int)
    requires
        0 <= i < steps.len(),
    ensures
        ({
            let lines = preview_of(steps, target);
            let n = steps.len() + (if target is Some { 1int } else { 0 });
            &&& lines.len() == 2 * steps.len() + (if target is Some { 1int } else { 0 })
            &&& lines[2 * i] == "["@ + text::dec((i + 1) as nat) + "/"@ + text::dec(n as nat)
                + "] "@ + steps[i].desc
            &&& steps[i].env.len() == 0 ==> lines[2 * i + 1] =~= "      $ "@ + text::joined(
                steps[i].argv,
                " "@,
            )
        }),
{
}

/// Only root drops to another user, to the owner of the package directory, and
/// never to root.
pub proof fn nothing_is_built_as_root(euid: u32, owner: u32)
    ensures
        drop_uid(euid, owner) matches Some(u) ==> euid == 0 && u == owner && u != 0,
        euid == 0 && owner != 0 ==> drop_uid(euid, owner) == Some(owner),
        euid != 0 ==> drop_uid(euid, owner) is None,
{
}

/// The tools that are missing are those without a flag, in order.
pub proof fn missing_tools_keep_their_order(
    items: Seq<(Seq<char>, Seq<char>)>,
    flags: Seq<bool>,
    item: (Seq<char>, Seq<char>),
    flag: bool,
)
    requires
        flags.len() == items.len(),
    ensures
        flag ==> unflagged(items.push(item), flags.push(flag)) == unflagged(items, flags),
        !flag ==> unflagged(items.push(item), flags.push(flag)) == unflagged(items, flags).push(item),
        unflagged(seq![], flags) == Seq::<(Seq<char>, Seq<char>)>::empty(),
{
    assert(items.push(item).drop_last() =~= items);
    later_flags_do_not_matter(items, flags, flags.push(flag));
}

proof fn later_flags_do_not_matter(
    items: Seq<(Seq<char>, Seq<char>)>,
    a: Seq<bool>,
    b: Seq<bool>,
)
    requires
        items.len() <= a.len(),
        items.len() <= b.len(),
        forall|i: int| 0 <= i < items.len() ==> #[trigger] a[i] == b[i],
    ensures
        unflagged(items, a) == unflagged(items, b),
    decreases items.len(),
{
    if items.len() > 0 {
        assert(a[items.len() - 1] == b[items.len() - 1]);
        later_flags_do_not_matter(items.drop_last(), a, b);
    }
}

/// Every missing tool is told of with its package, below a heading and above the
/// hint.
pub proof fn every_missing_tool_is_told(missing: Seq<(Seq<char>, Seq<char>)>, i: int)
    requires
        0 <= i < missing.len(),
    ensures
        missing_lines(missing).len() == missing.len() + 3,
        missing_lines(missing)[i + 1] == "  "@ + missing[i].0 + " (from package "@ + missing[i].1
            + ")"@,
        missing_lines(missing).last() == hint(missing),
{
}

/// The kernel trees are the directories of that name, in order; a file of that
/// name and a directory of another are none.
pub proof fn trees_are_named_directories(entries: Seq<(String, bool)>, e: (String, bool))
    ensures
        e.1 && text::begins(e.0@, "cachyos-"@) ==> trees(entries.push(e)) == trees(entries).push(e.0@),
        !e.1 || !text::begins(e.0@, "cachyos-"@) ==> trees(entries.push(e)) == trees(entries),
        trees(seq![]) == Seq::<Seq<char>>::empty(),
{
    assert(entries.push(e).drop_last() =~= entries);
}

/// The base address is the hexadecimal number that begins the sixth line; a table
/// of fewer lines has none.
pub proof fn base_is_in_the_sixth_line(res: Seq<char>, n: nat)
    requires
        n <= u64::MAX,
    ensures
        text::lines_of(res).len() <= 5 ==> bar_base(res) is None,
        text::lines_of(res).len() > 5 && text::words_of(text::lines_of(res)[5]).len() > 0
            && text::words_of(text::lines_of(res)[5])[0] == "0x"@ + text::hex(n) ==> bar_base(res)
            == Some(n as int),
{
    reveal_strlit("0x");
    let h = text::hex(n);
    text::hexadecimal_reads_back(n, u64::MAX as int);
    assert(!text::begins(h, "0x"@)) by {
        if text::begins(h, "0x"@) {
            text::hexadecimal_is_bare(n, 1);
            assert(h.subrange(0, 2)[1] == h[1]);
        }
    }
    text::stripping_takes_all(h, "0x"@);
}

/// The APU is told by its vendor and its device, each in its own node, and by
/// neither alone.
pub proof fn apu_is_told_by_both_ids(vendor: Option<String>, device: Option<String>)
    ensures
        is_apu((vendor, device)) <==> (vendor matches Some(v) && text::trimmed(v@) == "0x1002"@) && (
        device matches Some(d) && text::trimmed(d@) == "0x13fe"@),
{
}

/// Both remote tools give up after ten seconds and never prompt.
pub proof fn remote_tools_never_prompt(tool: Seq<char>)
    ensures
        ssh_options(tool)[0] == tool,
        ssh_options(tool)[1] == "-o"@ && ssh_options(tool)[2] == "ConnectTimeout=10"@,
        ssh_options(tool)[3] == "-o"@ && ssh_options(tool)[4] == "BatchMode=yes"@,
        ssh_options(tool).len() == 5,
{
}

/// A path is in the root user's home only where it is absolute, and its first part
/// decides.
pub proof fn first_part_decides_the_home(path: Seq<char>)
    ensures
        path.len() > 0 && path[0] != '/' ==> !in_root_home(path),
        in_root_home(path) ==> path_parts(path)[0] == "root"@,
        path.len() > 0 && path[0] == '/' && path_parts(path).len() > 0 && path_parts(path)[0]
            == "root"@ ==> in_root_home(path),
        path.len() == 0 ==> !in_root_home(path),
{
}

/// The parts of a path name something: none is empty or the directory itself, and
/// every other piece between the separators is one.
pub proof fn parts_of_a_path_name_something(path: Seq<char>, i: int, k: int)
    ensures
        0 <= i < path_parts(path).len() ==> path_parts(path)[i].len() > 0 && path_parts(path)[i]
            != "."@,
        0 <= k < text::pieces(path, '/').len() && text::pieces(path, '/')[k].len() > 0 && text::pieces(
            path,
            '/',
        )[k] != "."@ ==> path_parts(path).contains(text::pieces(path, '/')[k]),
{
    let keep = |p: Seq<char>| p.len() > 0 && p != "."@;
    text::pieces(path, '/').filter_lemma(keep);
    let parts = text::pieces(path, '/').filter(keep);
    if 0 <= i < parts.len() {
        assert(keep(parts[i]));
    }
    if 0 <= k < text::pieces(path, '/').len() && keep(text::pieces(path, '/')[k]) {
        text::pieces(path, '/').lemma_filter_contains(keep, k);
    }
}

} // verus!
