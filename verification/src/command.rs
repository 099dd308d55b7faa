//! Build-tool commands as plain data: the command type, its arguments
//! and environment, and the captured output of a run.

use vstd::prelude::*;
use crate::assoc::{alookup, akeys_unique, lemma_alookup_found, lemma_alookup_absent,
    lemma_alookup_update, lemma_alookup_push};
use crate::strutil::str_eq;

verus! {

/// The commands the build tool understands.
#[derive(Debug, Clone, PartialEq, Eq)]
pub enum XmakeCommandType {
    Build,
    Clean,
    Config,
    Install,
    Create,
    Run,
    Version,
    Help,
    Show,
    Package,
    Test,
    Custom(String),
}

impl XmakeCommandType {
    /// The command-line word of the command type.
    pub open spec fn spec_str(self) -> Seq<char> {
        match self {
            XmakeCommandType::Build => "build"@,
            XmakeCommandType::Clean => "clean"@,
            XmakeCommandType::Config => "config"@,
            XmakeCommandType::Install => "install"@,
            XmakeCommandType::Create => "create"@,
            XmakeCommandType::Run => "run"@,
            XmakeCommandType::Version => "--version"@,
            XmakeCommandType::Help => "--help"@,
            XmakeCommandType::Show => "show"@,
            XmakeCommandType::Package => "require"@,
            XmakeCommandType::Test => "test"@,
            XmakeCommandType::Custom(cmd) => cmd@,
        }
    }

    /// The command-line word of the command type.
    pub fn as_str(&self) -> (r: &str)
        ensures
            r@ == self.spec_str(),
    {
        match self {
            XmakeCommandType::Build => "build",
            XmakeCommandType::Clean => "clean",
            XmakeCommandType::Config => "config",
            XmakeCommandType::Install => "install",
            XmakeCommandType::Create => "create",
            XmakeCommandType::Run => "run",
            XmakeCommandType::Version => "--version",
            XmakeCommandType::Help => "--help",
            XmakeCommandType::Show => "show",
            XmakeCommandType::Package => "require",
            XmakeCommandType::Test => "test",
            XmakeCommandType::Custom(cmd) => cmd.as_str(),
        }
    }
}

/// The strings of a list, as the specifications see them.
pub open spec fn strings_view(s: Seq<String>) -> Seq<Seq<char>> {
    s.map_values(|x: String| x@)
}

/// The environment pairs, as the specifications see them.
pub open spec fn env_view(s: Seq<(String, String)>) -> Seq<(Seq<char>, Seq<char>)> {
    s.map_values(|e: (String, String)| (e.0@, e.1@))
}

/// One build-tool invocation: its type, arguments, environment and
/// whether the parent environment is inherited.
#[derive(Debug, Clone)]
pub struct XmakeCommand {
    pub command_type: XmakeCommandType,
    pub args: Vec<String>,
    pub env_vars: Vec<(String, String)>,
    pub inherit_env: bool,
}

impl XmakeCommand {
    /// A fresh command of the given type: no arguments, no extra
    /// environment, parent environment inherited.
    pub fn new(command_type: XmakeCommandType) -> (r: XmakeCommand)
        ensures
            r.command_type == command_type,
            r.args@.len() == 0,
            r.env_vars@.len() == 0,
            r.inherit_env == true,
    {
        XmakeCommand { command_type, args: Vec::new(), env_vars: Vec::new(), inherit_env: true }
    }

    /// Append one argument.
    pub fn arg(self, arg: &str) -> (r: XmakeCommand)
        ensures
            r.command_type == self.command_type,
            strings_view(r.args@) == strings_view(self.args@).push(arg@),
            r.env_vars == self.env_vars,
            r.inherit_env == self.inherit_env,
    {
        let ghost a0 = self.args@;
        let mut c = self;
        let chars = crate::strutil::str_to_chars(arg);
        let owned = crate::strutil::chars_to_string(&chars);
        c.args.push(owned);
        proof {
            assert(strings_view(c.args@) =~= strings_view(a0).push(arg@));
        }
        c
    }

    /// Append several arguments in order.
    pub fn args(self, args: &Vec<String>) -> (r: XmakeCommand)
        ensures
            r.command_type == self.command_type,
            strings_view(r.args@) == strings_view(self.args@) + strings_view(args@),
            r.env_vars == self.env_vars,
            r.inherit_env == self.inherit_env,
    {
        let mut c = self;
        let mut i: usize = 0;
        while i < args.len()
            invariant
                i <= args@.len(),
                c.command_type == self.command_type,
                c.env_vars == self.env_vars,
                c.inherit_env == self.inherit_env,
                strings_view(c.args@) == strings_view(self.args@) + strings_view(
                    args@.take(i as int),
                ),
            decreases args@.len() - i,
        {
            let ghost pre = c.args@;
            let item_chars = crate::strutil::str_to_chars(args[i].as_str());
            let copied = crate::strutil::chars_to_string(&item_chars);
            c.args.push(copied);
            proof {
                let lhs = strings_view(c.args@);
                let rhs = strings_view(self.args@) + strings_view(args@.take(i + 1 as int));
                assert(c.args@ == pre.push(copied));
                assert(lhs.len() == c.args@.len());
                assert(c.args@.len() == pre.len() + 1);
                assert(strings_view(pre).len() == pre.len());
                assert(strings_view(pre) == strings_view(self.args@) + strings_view(
                    args@.take(i as int),
                ));
                assert(pre.len() == self.args@.len() + i);
                assert(rhs.len() == self.args@.len() + i + 1);
                assert(lhs.len() == rhs.len());
                assert forall|j: int| 0 <= j < lhs.len() implies lhs[j] == rhs[j] by {
                    assert(lhs[j] == c.args@[j]@);
                    if j < pre.len() {
                        assert(c.args@[j] == pre[j]);
                        assert(strings_view(pre)[j] == pre[j]@);
                        if j < self.args@.len() {
                            assert(rhs[j] == strings_view(self.args@)[j]);
                        } else {
                            assert(rhs[j] == strings_view(args@.take(i + 1 as int))[j
                                - self.args@.len()]);
                            assert(args@.take(i + 1 as int)[j - self.args@.len()]
                                == args@.take(i as int)[j - self.args@.len()]);
                            assert(strings_view(args@.take(i as int))[j - self.args@.len()]
                                == args@.take(i as int)[j - self.args@.len()]@);
                        }
                    } else {
                        assert(c.args@[j] == copied);
                        assert(rhs[j] == strings_view(args@.take(i + 1 as int))[i as int]);
                        assert(args@.take(i + 1 as int)[i as int] == args@[i as int]);
                    }
                }
                assert(lhs =~= rhs);
            }
            i += 1;
        }
        proof {
            assert(args@.take(args@.len() as int) =~= args@);
        }
        c
    }

    /// Distinct environment keys.
    pub open spec fn wf(self) -> bool {
        akeys_unique(env_view(self.env_vars@))
    }

    /// Set one environment variable, replacing an earlier value under
    /// the same key.
    pub fn env(self, key: &str, value: &str) -> (r: XmakeCommand)
        requires
            self.wf(),
        ensures
            r.wf(),
            r.command_type == self.command_type,
            r.args == self.args,
            r.inherit_env == self.inherit_env,
            alookup(env_view(r.env_vars@), key@) == Some(value@),
            forall|k: Seq<char>| k != key@ ==> alookup(env_view(r.env_vars@), k) == alookup(
                env_view(self.env_vars@),
                k,
            ),
    {
        let mut c = self;
        let key_chars = crate::strutil::str_to_chars(key);
        let owned_key = crate::strutil::chars_to_string(&key_chars);
        let value_chars = crate::strutil::str_to_chars(value);
        let owned_value = crate::strutil::chars_to_string(&value_chars);
        let ghost v0 = env_view(c.env_vars@);
        let n = c.env_vars.len();
        let mut i: usize = 0;
        while i < n
            invariant
                akeys_unique(v0),
                n == c.env_vars@.len(),
                i <= n,
                v0 == env_view(c.env_vars@),
                owned_key@ == key@,
                owned_value@ == value@,
                c.command_type == self.command_type,
                c.args == self.args,
                c.inherit_env == self.inherit_env,
                c.env_vars == self.env_vars,
                forall|j: int| 0 <= j < i ==> v0[j].0 != key@,
            decreases n - i,
        {
            assert(v0[i as int].0 == c.env_vars@[i as int].0@);
            if str_eq(c.env_vars[i].0.as_str(), key) {
                c.env_vars[i] = (owned_key, owned_value);
                proof {
                    assert(env_view(c.env_vars@) =~= v0.update(i as int, (v0[i as int].0, value@)));
                    lemma_alookup_update(v0, i as int, value@);
                }
                return c;
            }
            i += 1;
        }
        proof {
            lemma_alookup_absent(v0, key@);
        }
        c.env_vars.push((owned_key, owned_value));
        proof {
            assert(env_view(c.env_vars@) =~= v0.push((key@, value@)));
            lemma_alookup_push(v0, key@, value@);
        }
        c
    }

    /// Set whether the parent environment is inherited.
    pub fn inherit_env(self, inherit: bool) -> (r: XmakeCommand)
        ensures
            r.command_type == self.command_type,
            r.args == self.args,
            r.env_vars == self.env_vars,
            r.inherit_env == inherit,
    {
        let mut c = self;
        c.inherit_env = inherit;
        c
    }

    /// The full argument list: the command word, then the arguments.
    pub fn build_args(&self) -> (r: Vec<String>)
        ensures
            strings_view(r@) == seq![self.command_type.spec_str()] + strings_view(self.args@),
    {
        let mut out: Vec<String> = Vec::new();
        let word_chars = crate::strutil::str_to_chars(self.command_type.as_str());
        let word = crate::strutil::chars_to_string(&word_chars);
        out.push(word);
        proof {
            assert(strings_view(out@) =~= seq![self.command_type.spec_str()]);
        }
        let mut i: usize = 0;
        while i < self.args.len()
            invariant
                i <= self.args@.len(),
                strings_view(out@) == seq![self.command_type.spec_str()] + strings_view(
                    self.args@.take(i as int),
                ),
            decreases self.args@.len() - i,
        {
            let ghost pre = out@;
            let item_chars = crate::strutil::str_to_chars(self.args[i].as_str());
            let copied = crate::strutil::chars_to_string(&item_chars);
            out.push(copied);
            proof {
                let cmd = self.command_type.spec_str();
                let lhs = strings_view(out@);
                let rhs = seq![cmd] + strings_view(self.args@.take(i + 1 as int));
                assert(out@ == pre.push(copied));
                assert(strings_view(pre) == seq![cmd] + strings_view(
                    self.args@.take(i as int),
                ));
                assert(strings_view(pre).len() == pre.len());
                assert(lhs.len() == rhs.len());
                assert forall|j: int| 0 <= j < lhs.len() implies lhs[j] == rhs[j] by {
                    assert(lhs[j] == out@[j]@);
                    if j < pre.len() {
                        assert(out@[j] == pre[j]);
                        assert(strings_view(pre)[j] == pre[j]@);
                        if j > 0 {
                            assert(strings_view(self.args@.take(i as int))[j - 1]
                                == self.args@.take(i as int)[j - 1]@);
                            assert(self.args@.take(i as int)[j - 1] == self.args@.take(
                                i + 1 as int,
                            )[j - 1]);
                            assert(rhs[j] == strings_view(self.args@.take(i + 1 as int))[j
                                - 1]);
                        }
                    } else {
                        assert(out@[j] == copied);
                        assert(rhs[j] == strings_view(self.args@.take(i + 1 as int))[
                            i as int
                        ]);
                        assert(self.args@.take(i + 1 as int)[i as int] == self.args@[
                            i as int
                        ]);
                    }
                }
                assert(lhs =~= rhs);
            }
            i += 1;
        }
        proof {
            assert(self.args@.take(self.args@.len() as int) =~= self.args@);
        }
        out
    }
}

/// The captured output of one command run.
#[derive(Debug, Clone)]
pub struct XmakeOutput {
    pub status_code: i32,
    pub stdout: String,
    pub stderr: String,
    pub success: bool,
}

impl XmakeOutput {
    /// Wrap a finished run; status code zero counts as success.
    pub fn new(status_code: i32, stdout: String, stderr: String) -> (r: XmakeOutput)
        ensures
            r.status_code == status_code,
            r.stdout@ == stdout@,
            r.stderr@ == stderr@,
            r.success == (status_code == 0),
    {
        XmakeOutput { status_code, stdout, stderr, success: status_code == 0 }
    }

    pub fn is_success(&self) -> (r: bool)
        ensures
            r == self.success,
    {
        self.success
    }

    /// The output text: standard output when non-empty, else stderr.
    pub fn output_text(&self) -> (r: &str)
        ensures
            self.stdout@.len() > 0 ==> r@ == self.stdout@,
            self.stdout@.len() == 0 ==> r@ == self.stderr@,
    {
        if !self.stdout.as_str().is_empty() {
            self.stdout.as_str()
        } else {
            self.stderr.as_str()
        }
    }
}

} // verus!
