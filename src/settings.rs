//! Settings of a run, the shells it can drive, and the environment that the
//! recording's header lists.
use vstd::prelude::*;

use crate::duration::{MICROS_PER_MILLI, MICROS_PER_SEC};
use crate::instruction::Instruction;
use crate::recording::pairs_view;
use crate::text::{contains_white_space, has_white_space, owned, push_char};

verus! {

/// The default pause between typed keys: 100 ms.
pub const DEFAULT_TYPE_SPEED_MILLIS: u64 = 100;

/// The default read timeout: 30 s.
pub const DEFAULT_TIMEOUT_SECS: u64 = 30;

pub open spec fn default_prompt_text() -> Seq<char> {
    seq!['$', ' ']
}

pub open spec fn default_secondary_prompt_text() -> Seq<char> {
    seq!['>', ' ']
}

/// The default pause between typed keys, in microseconds.
pub fn default_type_speed() -> (r: u64)
    ensures
        r == DEFAULT_TYPE_SPEED_MILLIS * MICROS_PER_MILLI,
{
    DEFAULT_TYPE_SPEED_MILLIS * MICROS_PER_MILLI
}

/// The default read timeout, in microseconds.
pub fn default_timeout() -> (r: u64)
    ensures
        r == DEFAULT_TIMEOUT_SECS * MICROS_PER_SEC,
{
    DEFAULT_TIMEOUT_SECS * MICROS_PER_SEC
}

pub fn default_prompt() -> (r: String)
    ensures
        r@ == default_prompt_text(),
{
    let mut r = String::new();
    push_char(&mut r, '$');
    push_char(&mut r, ' ');
    assert(r@ =~= default_prompt_text());
    r
}

pub fn default_secondary_prompt() -> (r: String)
    ensures
        r@ == default_secondary_prompt_text(),
{
    let mut r = String::new();
    push_char(&mut r, '>');
    push_char(&mut r, ' ');
    assert(r@ =~= default_secondary_prompt_text());
    r
}

/// The shell a script runs in.
#[derive(Debug)]
pub enum Shell {
    Bash,
    Python,
    /// Any program, with the prompt it prints, the text that continues a line,
    /// and the command that ends it.
    Custom {
        program: String,
        args: Vec<String>,
        prompt: String,
        line_split: String,
        quit_command: Option<String>,
    },
}

/// An environment variable set for the shell, written `NAME=VALUE`.
#[derive(Debug)]
pub struct EnvVar {
    pub name: String,
    pub value: String,
}

/// All that is needed to start a shell: the program, its arguments and
/// environment, the prompt to wait for and the command that ends it.
#[derive(Debug)]
pub struct Launch {
    pub program: String,
    pub args: Vec<String>,
    pub env: Vec<(String, String)>,
    pub prompt: String,
    pub quit_command: Option<String>,
}

pub open spec fn bash_prompt_text() -> Seq<char> {
    "AUTOCAST_PROMPT"@
}

pub open spec fn line_split_text() -> Seq<char> {
    seq![' ', '\\']
}

/// How a program or argument is shown: in double quotes if it holds white space.
pub open spec fn shown_word(w: Seq<char>) -> Seq<char> {
    if has_white_space(w) {
        seq!['"'] + w + seq!['"']
    } else {
        w
    }
}

/// The first `k` words shown and joined by spaces.
pub open spec fn shown_words(words: Seq<Seq<char>>, k: int) -> Seq<char>
    decreases k,
{
    if k <= 0 {
        Seq::empty()
    } else if k == 1 {
        shown_word(words[0])
    } else {
        shown_words(words, k - 1) + seq![' '] + shown_word(words[k - 1])
    }
}

pub open spec fn strings_view(v: Seq<String>) -> Seq<Seq<char>> {
    v.map_values(|s: String| s@)
}

impl Shell {
    pub open spec fn line_split_spec(&self) -> Seq<char> {
        match self {
            Shell::Custom { line_split, .. } => line_split@,
            _ => line_split_text(),
        }
    }

    pub open spec fn program_spec(&self) -> Seq<char> {
        match self {
            Shell::Bash => "bash"@,
            Shell::Python => "python"@,
            Shell::Custom { program, .. } => program@,
        }
    }

    /// The text that ends a line which the next one continues.
    pub fn line_split(&self) -> (r: &str)
        ensures
            r@ == self.line_split_spec(),
    {
        match self {
            Shell::Custom { line_split, .. } => line_split.as_str(),
            _ => {
                proof {
                    reveal_strlit(" \\");
                }
                assert(" \\"@ =~= line_split_text());
                " \\"
            },
        }
    }

    /// The program the shell runs.
    pub fn program(&self) -> (r: &str)
        ensures
            r@ == self.program_spec(),
    {
        match self {
            Shell::Bash => "bash",
            Shell::Python => "python",
            Shell::Custom { program, .. } => program.as_str(),
        }
    }

    /// How the shell is shown: its name, or for a custom shell the program and
    /// its arguments, each quoted if it holds white space.
    pub open spec fn display_spec(&self) -> Seq<char> {
        match self {
            Shell::Bash => "bash"@,
            Shell::Python => "python"@,
            Shell::Custom { program, args, .. } => shown_words(
                seq![program@] + strings_view(args@),
                args@.len() + 1int,
            ),
        }
    }

    pub fn display(&self) -> (r: String)
        ensures
            r@ == self.display_spec(),
    {
        match self {
            Shell::Bash => owned("bash"),
            Shell::Python => owned("python"),
            Shell::Custom { program, args, .. } => {
                let ghost words = seq![program@] + strings_view(args@);
                let mut r = String::new();
                push_shown_word(&mut r, program.as_str());
                assert(r@ =~= shown_words(words, 1));
                let mut i: usize = 0;
                while i < args.len()
                    invariant
                        i <= args@.len(),
                        words == seq![program@] + strings_view(args@),
                        r@ == shown_words(words, i + 1),
                    decreases args@.len() - i,
                {
                    let ghost before = r@;
                    push_char(&mut r, ' ');
                    push_shown_word(&mut r, args[i].as_str());
                    assert(words[i + 1] == args@[i as int]@);
                    assert(r@ =~= shown_words(words, i + 2));
                    i += 1;
                }
                r
            },
        }
    }

    /// How to start this shell with the given environment. Bash gets a fixed
    /// prompt that its output cannot be mistaken for, set after the given
    /// variables so that it wins over them.
    pub open spec fn launch_spec(&self, env: Seq<(Seq<char>, Seq<char>)>, l: Launch) -> bool {
        match self {
            Shell::Bash => {
                &&& l.program@ == "bash"@
                &&& l.args@.len() == 0
                &&& pairs_view(l.env@) == env + seq![
                    ("PS1"@, bash_prompt_text()),
                    ("PROMPT_COMMAND"@, "PS1=AUTOCAST_PROMPT; unset PROMPT_COMMAND; bind 'set enable-bracketed-paste off'"@),
                ]
                &&& l.prompt@ == bash_prompt_text()
                &&& l.quit_command is Some && l.quit_command->0@ == "exit"@
            },
            Shell::Python => {
                &&& l.program@ == "python"@
                &&& l.args@.len() == 0
                &&& pairs_view(l.env@) == env
                &&& l.prompt@ == ">>> "@
                &&& l.quit_command is Some && l.quit_command->0@ == "exit()"@
            },
            Shell::Custom { program, args, prompt, quit_command, .. } => {
                &&& l.program@ == program@
                &&& strings_view(l.args@) == strings_view(args@)
                &&& pairs_view(l.env@) == env
                &&& l.prompt@ == prompt@
                &&& l.quit_command is Some <==> quit_command is Some
                &&& quit_command is Some ==> l.quit_command->0@ == quit_command->0@
            },
        }
    }

    pub fn launch(&self, env: Vec<(String, String)>) -> (r: Launch)
        ensures
            self.launch_spec(pairs_view(env@), r),
    {
        let ghost ev = pairs_view(env@);
        match self {
            Shell::Bash => {
                let mut env = env;
                env.push((owned("PS1"), owned("AUTOCAST_PROMPT")));
                env.push(
                    (
                        owned("PROMPT_COMMAND"),
                        owned(
                            "PS1=AUTOCAST_PROMPT; unset PROMPT_COMMAND; bind 'set enable-bracketed-paste off'",
                        ),
                    ),
                );
                assert(pairs_view(env@) =~= ev + seq![
                    ("PS1"@, bash_prompt_text()),
                    ("PROMPT_COMMAND"@, "PS1=AUTOCAST_PROMPT; unset PROMPT_COMMAND; bind 'set enable-bracketed-paste off'"@),
                ]);
                Launch {
                    program: owned("bash"),
                    args: Vec::new(),
                    env,
                    prompt: owned("AUTOCAST_PROMPT"),
                    quit_command: Some(owned("exit")),
                }
            },
            Shell::Python => Launch {
                program: owned("python"),
                args: Vec::new(),
                env,
                prompt: owned(">>> "),
                quit_command: Some(owned("exit()")),
            },
            Shell::Custom { program, args, prompt, quit_command, .. } => {
                let mut a: Vec<String> = Vec::new();
                let mut i: usize = 0;
                while i < args.len()
                    invariant
                        i <= args@.len(),
                        strings_view(a@) == strings_view(args@).subrange(0, i as int),
                    decreases args@.len() - i,
                {
                    let ghost before = a@;
                    a.push(owned(args[i].as_str()));
                    assert(a@ == before.push(a@.last()));
                    assert(strings_view(a@) =~= strings_view(before).push(args@[i as int]@));
                    assert(strings_view(args@).subrange(0, i + 1) =~= strings_view(args@).subrange(
                        0,
                        i as int,
                    ).push(args@[i as int]@));
                    i += 1;
                }
                assert(strings_view(args@).subrange(0, i as int) =~= strings_view(args@));
                let q = match quit_command {
                    Some(q) => Some(owned(q.as_str())),
                    None => None,
                };
                Launch {
                    program: owned(program.as_str()),
                    args: a,
                    env,
                    prompt: owned(prompt.as_str()),
                    quit_command: q,
                }
            },
        }
    }
}

/// The settings of a run.
#[derive(Debug)]
pub struct Settings {
    /// Terminal width; the invoking terminal's when absent.
    pub width: Option<u16>,
    /// Terminal height; the invoking terminal's when absent.
    pub height: Option<u16>,
    pub title: Option<String>,
    pub shell: Shell,
    /// Variables set for the shell, and listed in the header; the last of two
    /// with the same name wins.
    pub environment: Vec<EnvVar>,
    /// Variables of the invoking process to list in the header.
    pub environment_capture: Vec<String>,
    /// The pause between typed keys, in microseconds.
    pub type_speed: u64,
    pub prompt: String,
    pub secondary_prompt: String,
    /// The longest wait for the prompt, in microseconds.
    pub timeout: u64,
}

impl Default for Settings {
    fn default() -> (r: Settings)
        ensures
            r.width is None,
            r.height is None,
            r.title is None,
            r.shell is Bash,
            r.environment@.len() == 0,
            r.environment_capture@.len() == 0,
            r.type_speed == DEFAULT_TYPE_SPEED_MILLIS * MICROS_PER_MILLI,
            r.prompt@ == default_prompt_text(),
            r.secondary_prompt@ == default_secondary_prompt_text(),
            r.timeout == DEFAULT_TIMEOUT_SECS * MICROS_PER_SEC,
    {
        Settings {
            width: None,
            height: None,
            title: None,
            shell: Shell::Bash,
            environment: Vec::new(),
            environment_capture: Vec::new(),
            type_speed: default_type_speed(),
            prompt: default_prompt(),
            secondary_prompt: default_secondary_prompt(),
            timeout: default_timeout(),
        }
    }
}

/// `b` where it is set, else `a`.
pub open spec fn or_keep<T>(a: Option<T>, b: Option<T>) -> Option<T> {
    match b {
        Some(_) => b,
        None => a,
    }
}

fn merge_option<T>(a: &mut Option<T>, b: Option<T>)
    ensures
        *final(a) == or_keep(*old(a), b),
{
    if let Some(t) = b {
        *a = Some(t);
    }
}

fn merge_vec<T>(a: &mut Vec<T>, b: Vec<T>)
    ensures
        final(a)@ == old(a)@ + b@,
{
    let mut b = b;
    a.append(&mut b);
}

impl Settings {
    /// Whether `merged` is `self` with `other` merged into it: what `other`
    /// sets wins, but a value equal to its default leaves the current one, and
    /// lists are appended.
    pub open spec fn merged_with(&self, other: &Settings, merged: &Settings) -> bool {
        &&& merged.width == or_keep(self.width, other.width)
        &&& merged.height == or_keep(self.height, other.height)
        &&& merged.title == or_keep(self.title, other.title)
        &&& merged.shell == if other.shell is Bash {
            self.shell
        } else {
            other.shell
        }
        &&& merged.environment@ == self.environment@ + other.environment@
        &&& merged.environment_capture@ == self.environment_capture@ + other.environment_capture@
        &&& merged.type_speed == if other.type_speed != DEFAULT_TYPE_SPEED_MILLIS
            * MICROS_PER_MILLI {
            other.type_speed
        } else {
            self.type_speed
        }
        &&& merged.prompt == if other.prompt@ != default_prompt_text() {
            other.prompt
        } else {
            self.prompt
        }
        &&& merged.secondary_prompt == if other.secondary_prompt@
            != default_secondary_prompt_text() {
            other.secondary_prompt
        } else {
            self.secondary_prompt
        }
        &&& merged.timeout == if other.timeout != DEFAULT_TIMEOUT_SECS * MICROS_PER_SEC {
            other.timeout
        } else {
            self.timeout
        }
    }

    /// Merges `other` into these settings. What `other` sets wins, but a value
    /// equal to its default leaves the current one; lists are appended.
    pub fn merge(&mut self, other: Settings)
        ensures
            old(self).merged_with(&other, final(self)),
    {
        let Settings {
            width,
            height,
            title,
            shell,
            environment,
            environment_capture,
            type_speed,
            prompt,
            secondary_prompt,
            timeout,
        } = other;
        merge_option(&mut self.width, width);
        merge_option(&mut self.height, height);
        merge_option(&mut self.title, title);
        match shell {
            Shell::Bash => {},
            _ => {
                self.shell = shell;
            },
        }
        merge_vec(&mut self.environment, environment);
        merge_vec(&mut self.environment_capture, environment_capture);
        if type_speed != default_type_speed() {
            self.type_speed = type_speed;
        }
        if prompt != default_prompt() {
            self.prompt = prompt;
        }
        if secondary_prompt != default_secondary_prompt() {
            self.secondary_prompt = secondary_prompt;
        }
        if timeout != default_timeout() {
            self.timeout = timeout;
        }
    }
}

/// A script: its settings and its instructions, in order.
#[derive(Debug)]
pub struct Script {
    pub settings: Settings,
    pub instructions: Vec<Instruction>,
}

impl Script {
    /// Merges settings given elsewhere, such as on the command line, into the
    /// script's own; see `Settings::merge`.
    pub fn merge_settings(&mut self, other_settings: Settings)
        ensures
            old(self).settings.merged_with(&other_settings, &final(self).settings),
            final(self).instructions == old(self).instructions,
    {
        self.settings.merge(other_settings);
    }
}

impl EnvVar {
    /// Reads `NAME=VALUE`, split at the first `=`; text without `=` is a name
    /// with an empty value.
    pub fn from(value: &str) -> (r: EnvVar)
        ensures
            (forall|i: int| 0 <= i < value@.len() ==> value@[i] != '=') ==> r.name@ == value@
                && r.value@.len() == 0,
            (exists|i: int| 0 <= i < value@.len() && value@[i] == '=') ==> exists|i: int|
                0 <= i < value@.len() && value@[i] == '=' && (forall|j: int|
                    0 <= j < i ==> value@[j] != '=') && r.name@ == value@.take(i) && r.value@
                    == value@.skip(i + 1),
    {
        let n = value.unicode_len();
        let mut i: usize = 0;
        while i < n
            invariant
                n == value@.len(),
                i <= n,
                forall|j: int| 0 <= j < i ==> value@[j] != '=',
            decreases n - i,
        {
            if value.get_char(i) == '=' {
                let name = owned(value.substring_char(0, i));
                let rest = owned(value.substring_char(i + 1, n));
                assert(value@.subrange(0, i as int) =~= value@.take(i as int));
                assert(value@.subrange(i + 1, n as int) =~= value@.skip(i + 1));
                return EnvVar { name, value: rest };
            }
            i += 1;
        }
        EnvVar { name: owned(value), value: String::new() }
    }

    /// The variable as a name and value pair.
    pub fn pair(&self) -> (r: (String, String))
        ensures
            r.0@ == self.name@,
            r.1@ == self.value@,
    {
        (owned(self.name.as_str()), owned(self.value.as_str()))
    }
}

/// The terminal size to record: the given width and height, and where one is
/// missing, the invoking terminal's, given as rows then columns. `None` where
/// one is missing and the terminal's size is not known.
pub fn terminal_size(width: Option<u16>, height: Option<u16>, terminal: Option<(u16, u16)>) -> (r:
    Option<(u16, u16)>)
    ensures
        width is Some && height is Some ==> r == Some((width->0, height->0)),
        !(width is Some && height is Some) ==> match terminal {
            Some((rows, columns)) => r == Some(
                (
                    match width {
                        Some(w) => w,
                        None => columns,
                    },
                    match height {
                        Some(h) => h,
                        None => rows,
                    },
                ),
            ),
            None => r is None,
        },
{
    match (width, height) {
        (Some(w), Some(h)) => Some((w, h)),
        _ => match terminal {
            Some((rows, columns)) => {
                let w = match width {
                    Some(w) => w,
                    None => columns,
                };
                let h = match height {
                    Some(h) => h,
                    None => rows,
                };
                Some((w, h))
            },
            None => None,
        },
    }
}

/// The index of the last pair named `k`, or -1 where there is none.
pub open spec fn key_index(m: Seq<(Seq<char>, Seq<char>)>, k: Seq<char>) -> int
    decreases m.len(),
{
    if m.len() == 0 {
        -1
    } else if m.last().0 == k {
        m.len() - 1
    } else {
        key_index(m.drop_last(), k)
    }
}

/// `m` with `k` set to `v`: in place where `k` is there, else at the end.
pub open spec fn put(m: Seq<(Seq<char>, Seq<char>)>, k: Seq<char>, v: Seq<char>) -> Seq<
    (Seq<char>, Seq<char>),
> {
    let i = key_index(m, k);
    if i >= 0 {
        m.update(i, (k, v))
    } else {
        m.push((k, v))
    }
}

/// `m` with `k` set to `v` at the end, unless `k` is there already.
pub open spec fn put_absent(m: Seq<(Seq<char>, Seq<char>)>, k: Seq<char>, v: Seq<char>) -> Seq<
    (Seq<char>, Seq<char>),
> {
    if key_index(m, k) >= 0 {
        m
    } else {
        m.push((k, v))
    }
}

/// `m` with the first `n` pairs put in turn.
pub open spec fn put_all(
    m: Seq<(Seq<char>, Seq<char>)>,
    pairs: Seq<(Seq<char>, Seq<char>)>,
    n: int,
) -> Seq<(Seq<char>, Seq<char>)>
    decreases n,
{
    if n <= 0 {
        m
    } else {
        put(put_all(m, pairs, n - 1), pairs[n - 1].0, pairs[n - 1].1)
    }
}

/// `m` with the first `n` pairs put in turn, each only where its name is new.
pub open spec fn put_all_absent(
    m: Seq<(Seq<char>, Seq<char>)>,
    pairs: Seq<(Seq<char>, Seq<char>)>,
    n: int,
) -> Seq<(Seq<char>, Seq<char>)>
    decreases n,
{
    if n <= 0 {
        m
    } else {
        put_absent(put_all_absent(m, pairs, n - 1), pairs[n - 1].0, pairs[n - 1].1)
    }
}

pub open spec fn env_vars_view(v: Seq<EnvVar>) -> Seq<(Seq<char>, Seq<char>)> {
    v.map_values(|e: EnvVar| (e.name@, e.value@))
}

pub open spec fn shell_key() -> Seq<char> {
    seq!['S', 'H', 'E', 'L', 'L']
}

/// The environment the header lists: the variables set for the shell, the
/// last of each name winning; then each captured variable not set already;
/// then `SHELL`, naming the shell program.
pub open spec fn header_env_spec(
    environment: Seq<(Seq<char>, Seq<char>)>,
    captured: Seq<(Seq<char>, Seq<char>)>,
    shell: Seq<char>,
) -> Seq<(Seq<char>, Seq<char>)> {
    let set = put_all(Seq::empty(), environment, environment.len() as int);
    let with_captured = put_all_absent(set, captured, captured.len() as int);
    put(with_captured, shell_key(), shell)
}

proof fn lemma_key_index_bound(m: Seq<(Seq<char>, Seq<char>)>, k: Seq<char>)
    ensures
        -1 <= key_index(m, k) < m.len(),
        key_index(m, k) >= 0 ==> m[key_index(m, k)].0 == k,
    decreases m.len(),
{
    if m.len() > 0 {
        lemma_key_index_bound(m.drop_last(), k);
    }
}

fn find_key(m: &Vec<(String, String)>, k: &str) -> (r: Option<usize>)
    ensures
        r is Some <==> key_index(pairs_view(m@), k@) >= 0,
        r is Some ==> r->0 == key_index(pairs_view(m@), k@) && r->0 < m@.len(),
{
    let mut i: usize = m.len();
    assert(pairs_view(m@).take(m@.len() as int) =~= pairs_view(m@));
    while i > 0
        invariant
            i <= m@.len(),
            key_index(pairs_view(m@), k@) == key_index(pairs_view(m@).take(i as int), k@),
        decreases i,
    {
        let ghost t = pairs_view(m@).take(i as int);
        assert(t.drop_last() =~= pairs_view(m@).take(i - 1));
        assert(t.last() == pairs_view(m@)[i - 1]);
        if m[i - 1].0 == owned(k) {
            return Some(i - 1);
        }
        i -= 1;
    }
    None
}

fn put_exec(m: &mut Vec<(String, String)>, k: &str, v: &str)
    ensures
        pairs_view(final(m)@) == put(pairs_view(old(m)@), k@, v@),
{
    let ghost before = pairs_view(m@);
    match find_key(m, k) {
        Some(i) => {
            proof {
                lemma_key_index_bound(before, k@);
            }
            m.set(i, (owned(k), owned(v)));
            assert(pairs_view(m@) =~= before.update(i as int, (k@, v@)));
        },
        None => {
            m.push((owned(k), owned(v)));
            assert(pairs_view(m@) =~= before.push((k@, v@)));
        },
    }
}

/// The environment that the recording's header lists. `captured` holds, for
/// each variable to capture, its name and its value in the invoking process
/// (empty where it has none); `shell` is the shell program's path or name.
pub fn header_env(environment: &Vec<EnvVar>, captured: &Vec<(String, String)>, shell: &str) -> (r:
    Vec<(String, String)>)
    ensures
        pairs_view(r@) == header_env_spec(
            env_vars_view(environment@),
            pairs_view(captured@),
            shell@,
        ),
{
    let ghost ev = env_vars_view(environment@);
    let ghost cv = pairs_view(captured@);
    let mut r: Vec<(String, String)> = Vec::new();
    let mut i: usize = 0;
    assert(pairs_view(r@) =~= Seq::<(Seq<char>, Seq<char>)>::empty());
    while i < environment.len()
        invariant
            i <= environment@.len(),
            ev == env_vars_view(environment@),
            pairs_view(r@) == put_all(Seq::empty(), ev, i as int),
        decreases environment@.len() - i,
    {
        put_exec(&mut r, environment[i].name.as_str(), environment[i].value.as_str());
        i += 1;
    }
    let ghost set = pairs_view(r@);
    let mut j: usize = 0;
    while j < captured.len()
        invariant
            j <= captured@.len(),
            cv == pairs_view(captured@),
            pairs_view(r@) == put_all_absent(set, cv, j as int),
        decreases captured@.len() - j,
    {
        let name = captured[j].0.as_str();
        if find_key(&r, name).is_none() {
            r.push((owned(name), owned(captured[j].1.as_str())));
            assert(pairs_view(r@) =~= put_all_absent(set, cv, j + 1));
        }
        j += 1;
    }
    proof {
        reveal_strlit("SHELL");
        assert("SHELL"@ =~= shell_key());
    }
    put_exec(&mut r, "SHELL", shell);
    r
}

fn push_shown_word(out: &mut String, w: &str)
    ensures
        final(out)@ == old(out)@ + shown_word(w@),
{
    if contains_white_space(w) {
        push_char(out, '"');
        out.append(w);
        push_char(out, '"');
    } else {
        out.append(w);
    }
    assert(final(out)@ =~= old(out)@ + shown_word(w@));
}

} // verus!
