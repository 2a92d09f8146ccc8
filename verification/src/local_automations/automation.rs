//! A local automation as the app holds it once its TOML file is loaded, and
//! the prompts that hand automation flows to an agent.

use vstd::prelude::*;

use crate::home::home_dir_text;
use crate::text::{chars_of, owned, push_all};

verus! {

/// What an automation runs.
pub enum LocalAutomationRunner {
    /// A Warp agent conversation seeded with `prompt`.
    WarpAgent { prompt: String },
    /// A shell command.
    Shell { command: String },
}

/// What a runner holds, as plain text.
pub enum RunnerView {
    WarpAgent { prompt: Seq<char> },
    Shell { command: Seq<char> },
}

impl View for LocalAutomationRunner {
    type V = RunnerView;

    open spec fn view(&self) -> RunnerView {
        match self {
            LocalAutomationRunner::WarpAgent { prompt } => RunnerView::WarpAgent { prompt: prompt@ },
            LocalAutomationRunner::Shell { command } => RunnerView::Shell { command: command@ },
        }
    }
}

/// A personal, user-scoped job defined by a TOML file.
pub struct LocalAutomation {
    pub name: String,
    /// The cron schedule, as written in the file.
    pub schedule: String,
    /// The working directory, as written in the file.
    pub cwd: Option<String>,
    pub runner: LocalAutomationRunner,
    pub enabled: bool,
    /// The file the automation was loaded from, when known.
    pub source_path: Option<String>,
}

/// What an automation holds, as plain values.
pub struct LocalAutomationView {
    pub name: Seq<char>,
    pub schedule: Seq<char>,
    pub cwd: Option<Seq<char>>,
    pub runner: RunnerView,
    pub enabled: bool,
    pub source_path: Option<Seq<char>>,
}

pub open spec fn opt_view(o: Option<String>) -> Option<Seq<char>> {
    match o {
        Some(s) => Some(s@),
        None => None,
    }
}

impl View for LocalAutomation {
    type V = LocalAutomationView;

    open spec fn view(&self) -> LocalAutomationView {
        LocalAutomationView {
            name: self.name@,
            schedule: self.schedule@,
            cwd: opt_view(self.cwd),
            runner: self.runner@,
            enabled: self.enabled,
            source_path: opt_view(self.source_path),
        }
    }
}

/// A file in the automations directory that failed to load.
pub struct LocalAutomationError {
    pub file_path: String,
}

fn copy_opt(o: &Option<String>) -> (r: Option<String>)
    ensures
        opt_view(r) == opt_view(*o),
{
    match o {
        Some(s) => Some(owned(s.as_str())),
        None => None,
    }
}

impl Clone for LocalAutomationRunner {
    fn clone(&self) -> (r: Self)
        ensures
            r@ == self@,
    {
        match self {
            LocalAutomationRunner::WarpAgent { prompt } => LocalAutomationRunner::WarpAgent {
                prompt: owned(prompt.as_str()),
            },
            LocalAutomationRunner::Shell { command } => LocalAutomationRunner::Shell {
                command: owned(command.as_str()),
            },
        }
    }
}

impl Clone for LocalAutomation {
    fn clone(&self) -> (r: Self)
        ensures
            r@ == self@,
    {
        LocalAutomation {
            name: owned(self.name.as_str()),
            schedule: owned(self.schedule.as_str()),
            cwd: copy_opt(&self.cwd),
            runner: self.runner.clone(),
            enabled: self.enabled,
            source_path: copy_opt(&self.source_path),
        }
    }
}

/// The prompt for starting a new automation, with a Warp agent or with
/// another agent: both defer all mechanics to the create-automation skill.
pub open spec fn new_automation_prompt_text() -> Seq<char> {
    "Use the create-automation skill to create a new automation with me."@
}

/// Prompt submitted to a fresh Warp agent conversation by the "New" modal's
/// "Use Warp Agent" option.
pub fn new_automation_agent_prompt() -> (r: String)
    ensures
        r@ == new_automation_prompt_text(),
{
    owned("Use the create-automation skill to create a new automation with me.")
}

/// Creation prompt for the "New" modal's "Copy agent prompt" option, aimed
/// at agents outside Warp.
pub fn new_automation_external_prompt() -> (r: String)
    ensures
        r@ == new_automation_prompt_text(),
{
    owned("Use the create-automation skill to create a new automation with me.")
}

/// `path` as shown to the user: a path inside the home directory `home`
/// (the directory itself, or below it) is written from `~`.
pub open spec fn home_relative_spec(path: Seq<char>, home: Option<Seq<char>>) -> Seq<char> {
    match home {
        Some(h) => if h.len() > 0 && h.len() <= path.len() && path.take(h.len() as int) == h && (path.len()
            == h.len() || path[h.len() as int] == '/') {
            seq!['~'] + path.skip(h.len() as int)
        } else {
            path
        },
        None => path,
    }
}

/// What the runner does, in words.
pub open spec fn runner_text(r: RunnerView) -> Seq<char> {
    match r {
        RunnerView::WarpAgent { prompt } => "agent prompt: "@ + prompt,
        RunnerView::Shell { command } => "shell command: "@ + command,
    }
}

/// The move-to-cloud prompt. It points the agent at the TOML on disk when
/// the source path is known (`shown_path`); otherwise it embeds the
/// schedule and runner so the prompt is self-contained.
pub open spec fn promote_prompt_spec(a: LocalAutomationView, noun: Seq<char>, shown_path: Option<Seq<char>>) -> Seq<char> {
    let head = "Use the create-automation skill to promote my "@ + noun + " \""@ + a.name
        + "\" to an Oz cloud schedule. "@;
    match shown_path {
        Some(p) => head + "Read its config at "@ + p
            + " for the existing name, schedule, and runner, and walk me through picking or creating an Oz environment."@,
        None => head + "Its schedule is `"@ + a.schedule + "` and it runs this "@ + runner_text(a.runner)
            + ". Walk me through picking or creating an Oz environment."@,
    }
}

/// The path shown in the move-to-cloud prompt, given the home directory.
pub open spec fn shown_source_path(a: LocalAutomationView, home: Option<Seq<char>>) -> Option<Seq<char>> {
    match a.source_path {
        Some(p) => Some(home_relative_spec(p, home)),
        None => None,
    }
}

pub open spec fn local_noun() -> Seq<char> {
    "local automation"@
}

pub open spec fn external_noun() -> Seq<char> {
    "Warp local automation"@
}

fn starts_with_chars(p: &[char], h: &[char]) -> (r: bool)
    ensures
        r == (h@.len() <= p@.len() && p@.take(h@.len() as int) == h@),
{
    if h.len() > p.len() {
        return false;
    }
    let mut i: usize = 0;
    while i < h.len()
        invariant
            i <= h.len() <= p.len(),
            p@.take(i as int) == h@.take(i as int),
        decreases h.len() - i,
    {
        if p[i] != h[i] {
            assert(p@.take(h@.len() as int)[i as int] != h@[i as int]);
            return false;
        }
        i = i + 1;
        assert(p@.take(i as int) =~= h@.take(i as int));
    }
    assert(h@.take(h@.len() as int) =~= h@);
    true
}

/// `path` written from `~` when it lies in `home` (see
/// [`home_relative_spec`]).
pub fn home_relative(path: &str, home: Option<&str>) -> (r: String)
    ensures
        r@ == home_relative_spec(path@, match home {
            Some(h) => Some(h@),
            None => None,
        }),
{
    let p = chars_of(path);
    match home {
        Some(h) => {
            let hc = chars_of(h);
            if hc.len() > 0 && hc.len() <= p.len() {
                let same = starts_with_chars(p.as_slice(), hc.as_slice());
                let boundary = p.len() == hc.len() || p[hc.len()] == '/';
                if same && boundary {
                    let mut r = String::new();
                    r.push('~');
                    let mut i = hc.len();
                    while i < p.len()
                        invariant
                            hc.len() <= i <= p.len(),
                            r@ == seq!['~'] + p@.subrange(hc.len() as int, i as int),
                        decreases p.len() - i,
                    {
                        r.push(p[i]);
                        i = i + 1;
                        assert(p@.subrange(hc.len() as int, i as int) =~= p@.subrange(
                            hc.len() as int,
                            i - 1,
                        ).push(p@[i - 1]));
                    }
                    assert(p@.subrange(hc.len() as int, p.len() as int) =~= p@.skip(hc.len() as int));
                    return r;
                }
            }
            owned(path)
        },
        None => owned(path),
    }
}

/// The move-to-cloud prompt for `automation`, naming it with `noun`, where
/// the home directory is `home` (see [`promote_prompt_spec`]).
pub fn promote_automation_prompt_for_home(automation: &LocalAutomation, noun: &str, home: Option<&str>) -> (r: String)
    ensures
        r@ == promote_prompt_spec(
            automation@,
            noun@,
            shown_source_path(
                automation@,
                match home {
                    Some(h) => Some(h@),
                    None => None,
                },
            ),
        ),
{
    let mut r = owned("Use the create-automation skill to promote my ");
    push_all(&mut r, noun);
    push_all(&mut r, " \"");
    push_all(&mut r, automation.name.as_str());
    push_all(&mut r, "\" to an Oz cloud schedule. ");
    match &automation.source_path {
        Some(path) => {
            let shown = home_relative(path.as_str(), home);
            push_all(&mut r, "Read its config at ");
            push_all(&mut r, shown.as_str());
            push_all(
                &mut r,
                " for the existing name, schedule, and runner, and walk me through picking or creating an Oz environment.",
            );
        },
        None => {
            push_all(&mut r, "Its schedule is `");
            push_all(&mut r, automation.schedule.as_str());
            push_all(&mut r, "` and it runs this ");
            match &automation.runner {
                LocalAutomationRunner::WarpAgent { prompt } => {
                    push_all(&mut r, "agent prompt: ");
                    push_all(&mut r, prompt.as_str());
                },
                LocalAutomationRunner::Shell { command } => {
                    push_all(&mut r, "shell command: ");
                    push_all(&mut r, command.as_str());
                },
            }
            push_all(&mut r, ". Walk me through picking or creating an Oz environment.");
        },
    }
    r
}

/// Prompt submitted to a fresh Warp agent conversation by the "Move to
/// cloud" modal's "Use Warp Agent" option. The path shown is relative to
/// the home directory found at run time.
pub fn promote_automation_agent_prompt(automation: &LocalAutomation) -> (r: String)
    ensures
        exists|home: Option<Seq<char>>|
            r@ == promote_prompt_spec(automation@, local_noun(), #[trigger] shown_source_path(automation@, home)),
{
    let home = home_dir_text();
    let r = match &home {
        Some(h) => promote_automation_prompt_for_home(automation, "local automation", Some(h.as_str())),
        None => promote_automation_prompt_for_home(automation, "local automation", None),
    };
    proof {
        let hv = match home {
            Some(h) => Some(h@),
            None => None,
        };
        assert(r@ == promote_prompt_spec(automation@, local_noun(), shown_source_path(automation@, hv)));
    }
    r
}

/// Move-to-cloud prompt for the "Move to cloud" modal's "Copy agent prompt"
/// option, aimed at agents outside Warp.
pub fn promote_automation_external_prompt(automation: &LocalAutomation) -> (r: String)
    ensures
        exists|home: Option<Seq<char>>|
            r@ == promote_prompt_spec(automation@, external_noun(), #[trigger] shown_source_path(automation@, home)),
{
    let home = home_dir_text();
    let r = match &home {
        Some(h) => promote_automation_prompt_for_home(automation, "Warp local automation", Some(h.as_str())),
        None => promote_automation_prompt_for_home(automation, "Warp local automation", None),
    };
    proof {
        let hv = match home {
            Some(h) => Some(h@),
            None => None,
        };
        assert(r@ == promote_prompt_spec(automation@, external_noun(), shown_source_path(automation@, hv)));
    }
    r
}

/// Without a source path the home directory plays no part: the prompt
/// embeds the schedule and the runner.
pub proof fn law_promote_without_path_is_self_contained(a: LocalAutomationView, noun: Seq<char>, h1: Option<Seq<char>>, h2: Option<Seq<char>>)
    requires
        a.source_path is None,
    ensures
        shown_source_path(a, h1) == shown_source_path(a, h2),
        promote_prompt_spec(a, noun, shown_source_path(a, h1)) == "Use the create-automation skill to promote my "@
            + noun + " \""@ + a.name + "\" to an Oz cloud schedule. "@ + "Its schedule is `"@ + a.schedule
            + "` and it runs this "@ + runner_text(a.runner) + ". Walk me through picking or creating an Oz environment."@,
{
}

} // verus!
