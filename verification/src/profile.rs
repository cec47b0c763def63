//! Tuning profiles: named bundles of unit, GPU and CPU settings.
//!
//! Built-in profiles are always there; a custom one of the same name takes the
//! place of a built-in. A profile is checked as a whole before any part of it is
//! enacted.
use vstd::prelude::*;

use crate::cpu;
use crate::cpu::{CpuError, CpuOc};
use crate::ocq3::Request;
use crate::text;

verus! {

/// Where custom profiles live.
pub const PROFILE_DIR: &'static str = "/var/lib/aputune/profiles";

/// GPU clock mode of a profile.
#[derive(Clone, Copy, Debug, PartialEq, Eq, Structural)]
pub enum GpuMode {
    /// Release the pin; the automatic mode resumes.
    Auto,
    /// Pin a clock.
    Force,
}

/// GPU clock policy of a profile.
#[derive(Clone, Copy, Debug, PartialEq, Eq, Structural)]
pub struct GpuTune {
    pub mode: GpuMode,
    pub force_mhz: Option<u32>,
}

/// A named bundle of settings; what is absent is left alone.
#[derive(Debug)]
pub struct Profile {
    pub name: String,
    pub description: String,
    /// Arm or disarm all compute units for the next boot.
    pub cu_40: Option<bool>,
    pub gpu: Option<GpuTune>,
    pub cpu: Option<CpuOc>,
}

/// A profile with its texts as characters.
pub struct ProfileView {
    pub name: Seq<char>,
    pub description: Seq<char>,
    pub cu_40: Option<bool>,
    pub gpu: Option<GpuTune>,
    pub cpu: Option<CpuOc>,
}

impl View for Profile {
    type V = ProfileView;

    open spec fn view(&self) -> ProfileView {
        ProfileView {
            name: self.name@,
            description: self.description@,
            cu_40: self.cu_40,
            gpu: self.gpu,
            cpu: self.cpu,
        }
    }
}

/// The views of a list of profiles.
pub open spec fn views(v: Seq<Profile>) -> Seq<ProfileView> {
    Seq::new(v.len(), |i: int| v[i]@)
}

/// Why a profile or its name is refused.
#[derive(Debug)]
pub enum ProfileError {
    Cpu(CpuError),
    /// A forced GPU mode without a clock.
    NoClock { name: String },
    /// A CPU point without the mailbox to send it through.
    NoMailbox,
    EmptyName,
    BadName { name: String },
}

impl ProfileError {
    /// The message shown to the operator.
    pub open spec fn text(&self) -> Seq<char> {
        match self {
            ProfileError::Cpu(e) => e.text(),
            ProfileError::NoClock { name } => "profile '"@ + name@
                + "': gpu.force_mhz required for mode=force"@,
            ProfileError::NoMailbox => "CPU OC needs the queue-3 mailbox (root + BC-250)"@,
            ProfileError::EmptyName => "profile name is empty"@,
            ProfileError::BadName { name } => "invalid profile name '"@ + name@
                + "' (use letters, digits, . _ -)"@,
        }
    }

    /// The message shown to the operator.
    pub fn message(&self) -> (r: String)
        ensures
            r@ == self.text(),
    {
        match self {
            ProfileError::Cpu(e) => e.message(),
            ProfileError::NoClock { name } => text::join3(
                "profile '",
                name.as_str(),
                "': gpu.force_mhz required for mode=force",
            ),
            ProfileError::NoMailbox => {
                "CPU OC needs the queue-3 mailbox (root + BC-250)".to_owned()
            },
            ProfileError::EmptyName => "profile name is empty".to_owned(),
            ProfileError::BadName { name } => text::join3(
                "invalid profile name '",
                name.as_str(),
                "' (use letters, digits, . _ -)",
            ),
        }
    }
}

/// The line about the compute units.
pub open spec fn cu_line(cu_40: Option<bool>) -> Seq<Seq<char>> {
    match cu_40 {
        Some(true) => seq!["40-CU: arm (modprobe.d; reboot to apply)"@],
        Some(false) => seq!["40-CU: disarm (revert to 24 CU next boot)"@],
        None => seq![],
    }
}

/// The line about the GPU.
pub open spec fn gpu_line(gpu: Option<GpuTune>) -> Seq<Seq<char>> {
    match gpu {
        Some(g) => match g.mode {
            GpuMode::Force => seq![
                "GPU: force "@ + text::dec(
                    match g.force_mhz {
                        Some(m) => m as nat,
                        None => 0,
                    },
                ) + " MHz (persisted manual pin)"@,
            ],
            GpuMode::Auto => seq!["GPU: auto (release pin; persisted auto mode)"@],
        },
        None => seq![],
    }
}

/// The line about the CPU.
pub open spec fn cpu_line(cpu: Option<CpuOc>) -> Seq<Seq<char>> {
    match cpu {
        Some(c) => seq![
            "CPU: boost "@ + text::dec(c.boost_mhz as nat) + " MHz, curve scale "@ + text::dec_int(
                c.curve_scale as int,
            ) + " (~"@ + text::dec(c.predicted() as nat) + " mV @ boost), temp "@ + text::dec(
                c.cpu_temp_c as nat,
            ) + "/"@ + text::dec(c.gpu_temp_c as nat) + " C"@,
        ],
        None => seq![],
    }
}

/// The plan of a profile: a line for each part it sets, or that it sets nothing.
pub open spec fn plan(p: ProfileView) -> Seq<Seq<char>> {
    let lines = cu_line(p.cu_40) + gpu_line(p.gpu) + cpu_line(p.cpu);
    if lines.len() == 0 { seq!["(no-op: profile sets nothing)"@] } else { lines }
}

/// One part of enacting a profile.
#[derive(Debug)]
pub enum ProfileStep {
    /// Send these messages, then save the point and have the boot unit keep it.
    Cpu { point: CpuOc, requests: Vec<Request> },
    /// Pin the GPU clock.
    Force(u32),
    /// Release the GPU clock.
    Release,
}

impl Profile {
    /// What enacting the profile would do, in words.
    pub fn plan_lines(&self) -> (r: Vec<String>)
        ensures
            text::texts(r@) == plan(self@),
    {
        let mut v: Vec<String> = Vec::new();
        match self.cu_40 {
            Some(arm) => if arm {
                v.push("40-CU: arm (modprobe.d; reboot to apply)".to_owned());
            } else {
                v.push("40-CU: disarm (revert to 24 CU next boot)".to_owned());
            },
            None => {},
        }
        assert(text::texts(v@) =~= cu_line(self.cu_40));
        match self.gpu {
            Some(g) => match g.mode {
                GpuMode::Force => {
                    let mhz: u32 = match g.force_mhz {
                        Some(m) => m,
                        None => 0,
                    };
                    v.push(
                        text::join3(
                            "GPU: force ",
                            text::decimal(mhz as u64).as_str(),
                            " MHz (persisted manual pin)",
                        ),
                    );
                },
                GpuMode::Auto => {
                    v.push("GPU: auto (release pin; persisted auto mode)".to_owned());
                },
            },
            None => {},
        }
        assert(text::texts(v@) =~= cu_line(self.cu_40) + gpu_line(self.gpu));
        match self.cpu {
            Some(c) => {
                let mut line = text::join3(
                    "CPU: boost ",
                    text::decimal(c.boost_mhz as u64).as_str(),
                    " MHz, curve scale ",
                );
                line.append(text::decimal_signed(c.curve_scale as i64).as_str());
                line.append(" (~");
                line.append(text::decimal(c.predicted_vid_mv() as u64).as_str());
                line.append(" mV @ boost), temp ");
                line.append(text::decimal(c.cpu_temp_c as u64).as_str());
                line.append("/");
                line.append(text::decimal(c.gpu_temp_c as u64).as_str());
                line.append(" C");
                v.push(line);
            },
            None => {},
        }
        assert(text::texts(v@) =~= cu_line(self.cu_40) + gpu_line(self.gpu) + cpu_line(self.cpu));
        if v.len() == 0 {
            v.push("(no-op: profile sets nothing)".to_owned());
        }
        assert(text::texts(v@) =~= plan(self@));
        v
    }

    /// A profile that can be enacted: a valid CPU point, and a clock to pin
    /// where it pins one.
    pub open spec fn valid(&self) -> bool {
        &&& self.cpu matches Some(c) ==> c.valid()
        &&& self.gpu matches Some(g) ==> (g.mode == GpuMode::Force ==> g.force_mhz is Some)
    }

    /// The refusal of a profile: its CPU point first, then the missing clock.
    pub open spec fn refused_as(&self, e: ProfileError) -> bool {
        if self.cpu is Some && !self.cpu->0.valid() {
            e == ProfileError::Cpu(self.cpu->0.refusal())
        } else {
            e matches ProfileError::NoClock { name } && name@ == self.name@
        }
    }

    /// Checks the whole profile; nothing is enacted.
    pub fn validate(&self) -> (r: Result<(), ProfileError>)
        ensures
            self.valid() ==> r is Ok,
            !self.valid() ==> r is Err && self.refused_as(r->Err_0),
    {
        if let Some(c) = &self.cpu {
            match c.validate() {
                Ok(()) => {},
                Err(e) => {
                    return Err(ProfileError::Cpu(e));
                },
            }
        }
        if let Some(g) = &self.gpu {
            if g.mode == GpuMode::Force && g.force_mhz.is_none() {
                return Err(ProfileError::NoClock { name: self.name.clone() });
            }
        }
        Ok(())
    }

    /// The parts of enacting the profile, in order: the CPU point from an
    /// unknown state, then the GPU clock. The whole profile is checked first; a
    /// CPU point needs the mailbox.
    pub fn apply(&self, mailbox: bool) -> (r: Result<Vec<ProfileStep>, ProfileError>)
        ensures
            !self.valid() ==> r is Err && self.refused_as(r->Err_0),
            self.valid() && self.cpu is Some && !mailbox ==> r is Err && r->Err_0
                is NoMailbox,
            self.valid() && (self.cpu is None || mailbox) ==> r is Ok && steps_of(
                self@,
                (r->Ok_0)@,
            ),
    {
        match self.validate() {
            Ok(()) => {},
            Err(e) => {
                return Err(e);
            },
        }
        let mut steps: Vec<ProfileStep> = Vec::new();
        if let Some(c) = &self.cpu {
            if !mailbox {
                return Err(ProfileError::NoMailbox);
            }
            match c.apply() {
                Ok(requests) => {
                    steps.push(ProfileStep::Cpu { point: *c, requests });
                },
                Err(e) => {
                    return Err(ProfileError::Cpu(e));
                },
            }
        }
        if let Some(g) = &self.gpu {
            match g.mode {
                GpuMode::Force => match g.force_mhz {
                    Some(mhz) => {
                        steps.push(ProfileStep::Force(mhz));
                    },
                    None => {},
                },
                GpuMode::Auto => {
                    steps.push(ProfileStep::Release);
                },
            }
        }
        Ok(steps)
    }
}

/// The step of the CPU point.
pub open spec fn cpu_step(c: CpuOc, s: ProfileStep) -> bool {
    s matches ProfileStep::Cpu { point, requests } && point == c && requests@
        == cpu::apply_requests(c, None)
}

/// The step of the GPU policy.
pub open spec fn gpu_step(g: GpuTune, s: ProfileStep) -> bool {
    match g.mode {
        GpuMode::Force => s == ProfileStep::Force(g.force_mhz->0),
        GpuMode::Auto => s == ProfileStep::Release,
    }
}

/// The steps of a valid profile: its CPU point, then its GPU policy.
pub open spec fn steps_of(p: ProfileView, steps: Seq<ProfileStep>) -> bool {
    match (p.cpu, p.gpu) {
        (Some(c), Some(g)) => steps.len() == 2 && cpu_step(c, steps[0]) && gpu_step(g, steps[1]),
        (Some(c), None) => steps.len() == 1 && cpu_step(c, steps[0]),
        (None, Some(g)) => steps.len() == 1 && gpu_step(g, steps[0]),
        (None, None) => steps.len() == 0,
    }
}

// ---------------------------------------------------------------------------
// The list of profiles

/// The built-in profiles.
pub open spec fn builtin_views() -> Seq<ProfileView> {
    let release = Some(GpuTune { mode: GpuMode::Auto, force_mhz: None });
    seq![
        ProfileView {
            name: "safe"@,
            description:
                "Roll back all experiments: release GPU clock, open the CPU window wide, hand voltage to BAPM."@,
            cu_40: None,
            gpu: release,
            cpu: Some(
                CpuOc { boost_mhz: 3500, curve_scale: 0, cpu_temp_c: 100, gpu_temp_c: 100 },
            ),
        },
        ProfileView {
            name: "balanced"@,
            description:
                "40-CU on, GPU released to BAPM (use `gpu autosleep` for app-driven power), CPU 3.8 GHz with a curve undervolt. The everyday setup."@,
            cu_40: Some(true),
            gpu: release,
            cpu: Some(
                CpuOc {
                    boost_mhz: 3800,
                    curve_scale: cpu::safe_scale(3800, 1250) as i32,
                    cpu_temp_c: 90,
                    gpu_temp_c: 90,
                },
            ),
        },
        ProfileView {
            name: "performance"@,
            description:
                "40-CU on, GPU pinned to the 2230 MHz run state (BAPM owns Vid), CPU 4.0 GHz with a curve undervolt. Stress-test before trusting; watch thermals."@,
            cu_40: Some(true),
            gpu: Some(GpuTune { mode: GpuMode::Force, force_mhz: Some(2230) }),
            cpu: Some(
                CpuOc {
                    boost_mhz: 4000,
                    curve_scale: cpu::safe_scale(4000, 1275) as i32,
                    cpu_temp_c: 95,
                    gpu_temp_c: 95,
                },
            ),
        },
    ]
}

/// The built-in profiles.
pub fn builtins() -> (r: Vec<Profile>)
    ensures
        views(r@) == builtin_views(),
{
    let mut v: Vec<Profile> = Vec::new();
    v.push(
        Profile {
            name: "safe".to_owned(),
            description:
                "Roll back all experiments: release GPU clock, open the CPU window wide, hand voltage to BAPM.".to_owned(),
            cu_40: None,
            gpu: Some(GpuTune { mode: GpuMode::Auto, force_mhz: None }),
            cpu: Some(
                CpuOc { boost_mhz: 3500, curve_scale: 0, cpu_temp_c: 100, gpu_temp_c: 100 },
            ),
        },
    );
    v.push(
        Profile {
            name: "balanced".to_owned(),
            description:
                "40-CU on, GPU released to BAPM (use `gpu autosleep` for app-driven power), CPU 3.8 GHz with a curve undervolt. The everyday setup.".to_owned(),
            cu_40: Some(true),
            gpu: Some(GpuTune { mode: GpuMode::Auto, force_mhz: None }),
            cpu: Some(
                CpuOc {
                    boost_mhz: 3800,
                    curve_scale: cpu::safe_scale_for(3800, 1250),
                    cpu_temp_c: 90,
                    gpu_temp_c: 90,
                },
            ),
        },
    );
    v.push(
        Profile {
            name: "performance".to_owned(),
            description:
                "40-CU on, GPU pinned to the 2230 MHz run state (BAPM owns Vid), CPU 4.0 GHz with a curve undervolt. Stress-test before trusting; watch thermals.".to_owned(),
            cu_40: Some(true),
            gpu: Some(GpuTune { mode: GpuMode::Force, force_mhz: Some(2230) }),
            cpu: Some(
                CpuOc {
                    boost_mhz: 4000,
                    curve_scale: cpu::safe_scale_for(4000, 1275),
                    cpu_temp_c: 95,
                    gpu_temp_c: 95,
                },
            ),
        },
    );
    assert(views(v@) =~= builtin_views());
    v
}

/// A character of a profile name: an ASCII letter or digit, `.`, `_` or `-`.
pub open spec fn name_char(c: char) -> bool {
    ||| 48 <= text::code(c) <= 57
    ||| 65 <= text::code(c) <= 90
    ||| 97 <= text::code(c) <= 122
    ||| c == '.'
    ||| c == '_'
    ||| c == '-'
}

/// A name that stays a plain file name: not empty, no dot in front, nothing but
/// name characters.
pub open spec fn good_name(name: Seq<char>) -> bool {
    &&& name.len() > 0
    &&& name[0] != '.'
    &&& forall|i: int| 0 <= i < name.len() ==> name_char(#[trigger] name[i])
}

/// Accepts the names that stay inside the profile directory.
pub fn valid_name(name: &str) -> (r: Result<(), ProfileError>)
    ensures
        good_name(name@) ==> r is Ok,
        name@.len() == 0 ==> r is Err && r->Err_0 is EmptyName,
        name@.len() > 0 && !good_name(name@) ==> (r matches Err(ProfileError::BadName { name: n })
            && n@ == name@),
{
    let x = text::chars_of(name);
    if x.len() == 0 {
        return Err(ProfileError::EmptyName);
    }
    if x[0] == '.' {
        return Err(ProfileError::BadName { name: name.to_owned() });
    }
    let mut i: usize = 0;
    while i < x.len()
        invariant
            x@ == name@,
            i <= x@.len(),
            forall|j: int| 0 <= j < i ==> name_char(#[trigger] x@[j]),
        decreases x@.len() - i,
    {
        let c: char = x[i];
        let k: u32 = c as u32;
        if !((48 <= k && k <= 57) || (65 <= k && k <= 90) || (97 <= k && k <= 122) || c == '.' || c
            == '_' || c == '-') {
            assert(!name_char(name@[i as int]));
            return Err(ProfileError::BadName { name: name.to_owned() });
        }
        i += 1;
    }
    Ok(())
}

/// The file of a custom profile.
pub fn custom_path(name: &str) -> (r: String)
    ensures
        r@ == PROFILE_DIR@ + "/"@ + name@ + ".json"@,
{
    let mut r = text::join3(PROFILE_DIR, "/", name);
    r.append(".json");
    r
}

/// A list with the profiles of a name taken out.
pub open spec fn without(list: Seq<ProfileView>, name: Seq<char>) -> Seq<ProfileView>
    decreases list.len(),
{
    if list.len() == 0 {
        seq![]
    } else if list.last().name == name {
        without(list.drop_last(), name)
    } else {
        without(list.drop_last(), name).push(list.last())
    }
}

/// A list with custom profiles laid over it in turn: each goes to the end and
/// takes the place of those of its name.
pub open spec fn overlaid(list: Seq<ProfileView>, custom: Seq<ProfileView>) -> Seq<ProfileView>
    decreases custom.len(),
{
    if custom.len() == 0 {
        list
    } else {
        without(overlaid(list, custom.drop_last()), custom.last().name).push(custom.last())
    }
}

fn drop_named(list: Vec<Profile>, name: &str) -> (r: Vec<Profile>)
    ensures
        views(r@) == without(views(list@), name@),
{
    let ghost all = list@;
    let mut rest = list;
    let mut r: Vec<Profile> = Vec::new();
    let ghost mut n: int = 0;
    assert(views(all.take(0)) =~= seq![]);
    assert(views(r@) =~= seq![]);
    assert(all.skip(0) =~= all);
    while rest.len() > 0
        invariant
            0 <= n <= all.len(),
            rest@ == all.skip(n),
            views(r@) == without(views(all.take(n)), name@),
        decreases rest@.len(),
    {
        let p: Profile = rest.remove(0);
        proof {
            assert(p == all[n]);
            assert(rest@ =~= all.skip(n + 1));
            assert(views(all.take(n + 1)).drop_last() =~= views(all.take(n)));
        }
        if !text::same(p.name.as_str(), name) {
            let ghost before = r@;
            r.push(p);
            assert(views(r@) =~= views(before).push(p@));
        }
        proof {
            n = n + 1;
        }
    }
    assert(all.take(n) =~= all);
    r
}

/// All profiles: the built-in ones with the custom ones laid over them.
pub fn all(custom: Vec<Profile>) -> (r: Vec<Profile>)
    ensures
        views(r@) == overlaid(builtin_views(), views(custom@)),
{
    let ghost extra = custom@;
    let mut list = builtins();
    let mut rest = custom;
    let ghost mut n: int = 0;
    assert(views(extra.take(0)) =~= seq![]);
    assert(extra.skip(0) =~= extra);
    while rest.len() > 0
        invariant
            0 <= n <= extra.len(),
            rest@ == extra.skip(n),
            views(list@) == overlaid(builtin_views(), views(extra.take(n))),
        decreases rest@.len(),
    {
        let p: Profile = rest.remove(0);
        proof {
            assert(p == extra[n]);
            assert(rest@ =~= extra.skip(n + 1));
            assert(views(extra.take(n + 1)).drop_last() =~= views(extra.take(n)));
        }
        list = drop_named(list, p.name.as_str());
        let ghost before = list@;
        list.push(p);
        proof {
            assert(views(list@) =~= views(before).push(p@));
            n = n + 1;
        }
    }
    assert(extra.take(n) =~= extra);
    list
}

/// The first profile of a name in a list.
pub open spec fn first_named(list: Seq<ProfileView>, name: Seq<char>) -> Option<ProfileView>
    decreases list.len(),
{
    if list.len() == 0 {
        None
    } else if list[0].name == name {
        Some(list[0])
    } else {
        first_named(list.drop_first(), name)
    }
}

/// The profile of a name, a custom one before a built-in one.
pub fn find(name: &str, custom: Vec<Profile>) -> (r: Option<Profile>)
    ensures
        match first_named(overlaid(builtin_views(), views(custom@)), name@) {
            Some(p) => r is Some && (r->0)@ == p,
            None => r is None,
        },
{
    let ghost target = overlaid(builtin_views(), views(custom@));
    let mut rest = all(custom);
    let ghost mut n: int = 0;
    assert(target.skip(0) =~= target);
    while rest.len() > 0
        invariant
            0 <= n <= target.len(),
            views(rest@) == target.skip(n),
            first_named(target.skip(n), name@) == first_named(target, name@),
            target == overlaid(builtin_views(), views(custom@)),
        decreases rest@.len(),
    {
        let ghost before = rest@;
        let p: Profile = rest.remove(0);
        proof {
            assert(views(before)[0] == p@);
            assert(target.skip(n)[0] == p@);
            assert(views(rest@) =~= views(before).drop_first());
            assert(target.skip(n).drop_first() =~= target.skip(n + 1));
            assert(views(before).len() == target.len() - n);
        }
        if text::same(p.name.as_str(), name) {
            return Some(p);
        }
        proof {
            n = n + 1;
        }
    }
    assert(views(rest@).len() == 0);
    None
}

// ---------------------------------------------------------------------------
// Laws

/// Every built-in profile has a good name and can be enacted.
pub proof fn builtins_can_be_enacted(p: Profile, i: int)
    requires
        0 <= i < 3,
        p@ == builtin_views()[i],
    ensures
        good_name(p.name@),
        p.valid(),
{
    reveal_strlit("safe");
    reveal_strlit("balanced");
    reveal_strlit("performance");
    cpu::curve_in_envelope(3500, 0);
    cpu::safe_scale_is_safe(3800, 1250);
    cpu::safe_scale_is_safe(4000, 1275);
}

/// A good name holds no path separator and is neither the directory itself nor
/// its parent.
pub proof fn good_name_stays_inside(name: Seq<char>)
    requires
        good_name(name),
    ensures
        forall|i: int| 0 <= i < name.len() ==> #[trigger] name[i] != '/',
        name != "."@,
        name != ".."@,
{
    reveal_strlit(".");
    reveal_strlit("..");
}

/// A custom profile is found under its name, whatever built-in had it.
pub proof fn custom_shadows_builtin(custom: Seq<ProfileView>)
    requires
        custom.len() > 0,
    ensures
        first_named(overlaid(builtin_views(), custom), custom.last().name) == Some(custom.last()),
{
    let base = overlaid(builtin_views(), custom.drop_last());
    let name = custom.last().name;
    without_has_none(base, name);
    pushed_is_found(without(base, name), custom.last());
}

proof fn without_has_none(list: Seq<ProfileView>, name: Seq<char>)
    ensures
        forall|i: int| 0 <= i < without(list, name).len() ==> (#[trigger] without(list, name)[i]).name != name,
    decreases list.len(),
{
    if list.len() > 0 {
        without_has_none(list.drop_last(), name);
    }
}

proof fn pushed_is_found(list: Seq<ProfileView>, p: ProfileView)
    requires
        forall|i: int| 0 <= i < list.len() ==> (#[trigger] list[i]).name != p.name,
    ensures
        first_named(list.push(p), p.name) == Some(p),
    decreases list.len(),
{
    if list.len() > 0 {
        assert(list.push(p)[0] == list[0]);
        assert(list.push(p).drop_first() =~= list.drop_first().push(p));
        pushed_is_found(list.drop_first(), p);
    }
}

/// The plan has a line for each part that is set, and one where none is.
pub proof fn plan_has_a_line_for_each_part(p: ProfileView)
    ensures
        ({
            let parts = (if p.cu_40 is Some { 1int } else { 0 }) + (if p.gpu is Some {
                1int
            } else {
                0
            }) + (if p.cpu is Some { 1int } else { 0 });
            plan(p).len() == (if parts == 0 { 1 } else { parts })
        }),
        p.cu_40 == Some(true) ==> plan(p)[0] == "40-CU: arm (modprobe.d; reboot to apply)"@,
        p.cu_40 == Some(false) ==> plan(p)[0] == "40-CU: disarm (revert to 24 CU next boot)"@,
{
}

/// The parts of a profile are enacted in order, each as it is set: the CPU point
/// first, from an unknown state, and the GPU clock last, the pin at its clock or
/// the release.
pub proof fn parts_are_enacted_as_set(p: ProfileView, steps: Seq<ProfileStep>)
    requires
        steps_of(p, steps),
    ensures
        steps.len() == (if p.cpu is Some { 1int } else { 0 }) + (if p.gpu is Some { 1int } else { 0 }),
        p.cpu matches Some(c) ==> (steps[0] matches ProfileStep::Cpu { point, requests } && point
            == c && requests@ == cpu::apply_requests(c, None)),
        p.gpu matches Some(g) ==> (g.mode is Auto ==> steps.last() == ProfileStep::Release),
        p.gpu matches Some(g) ==> (g.mode is Force && g.force_mhz is Some ==> steps.last()
            == ProfileStep::Force(g.force_mhz->0)),
{
}

/// A profile is refused for its CPU point, or for a pin without a clock, and for
/// nothing else; where both are wrong it is refused for the point.
pub proof fn profile_is_refused_for_a_reason(p: Profile, e: ProfileError)
    ensures
        p.valid() <==> !(p.cpu is Some && !p.cpu->0.valid()) && !(p.gpu is Some && p.gpu->0.mode
            is Force && p.gpu->0.force_mhz is None),
        p.cpu is Some && !p.cpu->0.valid() && p.refused_as(e) ==> e == ProfileError::Cpu(
            p.cpu->0.refusal(),
        ),
        (p.cpu is None || p.cpu->0.valid()) && p.refused_as(e) ==> e is NoClock,
{
}

/// The safe profile takes every experiment back: the stock clock on the stock
/// curve, both temperature limits at their highest, the GPU released.
pub proof fn safe_profile_takes_all_back()
    ensures
        builtin_views()[0].cpu == Some(
            CpuOc { boost_mhz: 3500, curve_scale: 0, cpu_temp_c: 100, gpu_temp_c: 100 },
        ),
        builtin_views()[0].gpu is Some && builtin_views()[0].gpu->0.mode is Auto,
        builtin_views()[0].cu_40 is None,
        builtin_views().len() == 3,
{
}

/// A name is made of letters of either case, digits, dots, underscores and
/// dashes, and of nothing else.
pub proof fn characters_of_a_name(c: char)
    ensures
        'a' <= c <= 'z' ==> name_char(c),
        'A' <= c <= 'Z' ==> name_char(c),
        '0' <= c <= '9' ==> name_char(c),
        name_char('.') && name_char('_') && name_char('-'),
        name_char(c) ==> 'a' <= c <= 'z' || 'A' <= c <= 'Z' || '0' <= c <= '9' || c == '.' || c
            == '_' || c == '-',
{
}

/// A profile that is found has the name that was looked for, and none is found
/// only where none has it.
pub proof fn found_profile_has_the_name(list: Seq<ProfileView>, name: Seq<char>)
    ensures
        first_named(list, name) matches Some(p) ==> p.name == name && list.contains(p),
        first_named(list, name) is None <==> forall|i: int|
            0 <= i < list.len() ==> (#[trigger] list[i]).name != name,
    decreases list.len(),
{
    if list.len() > 0 {
        let rest = list.drop_first();
        found_profile_has_the_name(rest, name);
        assert(forall|i: int| 1 <= i < list.len() ==> #[trigger] list[i] == rest[i - 1]);
        if list[0].name == name {
            assert(list.contains(list[0]));
        } else if first_named(rest, name) is Some {
            let p = first_named(rest, name)->0;
            let k = choose|k: int| 0 <= k < rest.len() && rest[k] == p;
            assert(list[k + 1] == p);
        } else {
            assert forall|i: int| 0 <= i < list.len() implies (#[trigger] list[i]).name != name by {
                if i > 0 {
                    assert(list[i] == rest[i - 1]);
                }
            }
        }
        if first_named(list, name) is Some && list[0].name != name {
            let p = first_named(rest, name)->0;
            let k = choose|k: int| 0 <= k < rest.len() && rest[k] == p;
            assert(list[k + 1].name == name);
        }
    }
}

/// A profile is still found under its name where no custom one has that name.
pub proof fn other_names_are_left(list: Seq<ProfileView>, custom: Seq<ProfileView>, name: Seq<char>)
    requires
        forall|i: int| 0 <= i < custom.len() ==> (#[trigger] custom[i]).name != name,
    ensures
        first_named(overlaid(list, custom), name) == first_named(list, name),
    decreases custom.len(),
{
    if custom.len() > 0 {
        let front = custom.drop_last();
        assert forall|i: int| 0 <= i < front.len() implies (#[trigger] front[i]).name != name by {
            assert(front[i] == custom[i]);
        }
        other_names_are_left(list, front, name);
        let base = overlaid(list, front);
        assert(custom.last() == custom[custom.len() - 1]);
        other_names_stay(base, custom.last().name, name);
        first_of_longer(without(base, custom.last().name), custom.last(), name);
    }
}

proof fn first_of_longer(list: Seq<ProfileView>, p: ProfileView, name: Seq<char>)
    ensures
        first_named(list, name) is Some ==> first_named(list.push(p), name) == first_named(list, name),
        first_named(list, name) is None && p.name == name ==> first_named(list.push(p), name)
            == Some(p),
        first_named(list, name) is None && p.name != name ==> first_named(list.push(p), name)
            is None,
    decreases list.len(),
{
    if list.len() > 0 {
        assert(list.push(p).drop_first() =~= list.drop_first().push(p));
        first_of_longer(list.drop_first(), p, name);
    } else {
        reveal_with_fuel(first_named, 2);
        assert(list.push(p).drop_first() =~= seq![]);
    }
}

proof fn other_names_stay(list: Seq<ProfileView>, gone: Seq<char>, name: Seq<char>)
    requires
        gone != name,
    ensures
        first_named(without(list, gone), name) == first_named(list, name),
    decreases list.len(),
{
    if list.len() > 0 {
        let front = list.drop_last();
        other_names_stay(front, gone, name);
        assert(front.push(list.last()) =~= list);
        first_of_longer(front, list.last(), name);
        first_of_longer(without(front, gone), list.last(), name);
    }
}

} // verus!
