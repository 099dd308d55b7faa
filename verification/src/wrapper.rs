//! The command wrapper's configuration: which executable to call and
//! where.  Running the command is the surrounding application's job.

use vstd::prelude::*;
use crate::command::{XmakeCommand, XmakeCommandType};
use crate::strutil::{str_to_chars, chars_to_string};

verus! {

/// Configuration of the build-tool wrapper.
#[derive(Debug)]
pub struct XmakeWrapper {
    /// The executable to invoke.
    pub xmake_env: String,
    /// The working directory, when one is set.
    pub working_dir: Option<String>,
}

impl Clone for XmakeWrapper {
    fn clone(&self) -> (r: Self)
        ensures
            r == *self,
    {
        XmakeWrapper {
            xmake_env: self.xmake_env.clone(),
            working_dir: match &self.working_dir {
                Some(d) => Some(d.clone()),
                None => None,
            },
        }
    }
}

impl XmakeWrapper {
    /// A wrapper calling `xmake` from the search path.
    pub fn new() -> (r: XmakeWrapper)
        ensures
            r.xmake_env@ == "xmake"@,
            r.working_dir is None,
    {
        let chars = str_to_chars("xmake");
        XmakeWrapper { xmake_env: chars_to_string(&chars), working_dir: None }
    }

    /// A wrapper calling a custom executable.
    pub fn with_path(xmake_path: &str) -> (r: XmakeWrapper)
        ensures
            r.xmake_env@ == xmake_path@,
            r.working_dir is None,
    {
        let chars = str_to_chars(xmake_path);
        XmakeWrapper { xmake_env: chars_to_string(&chars), working_dir: None }
    }

    /// The same wrapper with a working directory set.
    pub fn with_working_dir(self, dir: &str) -> (r: XmakeWrapper)
        ensures
            r.xmake_env == self.xmake_env,
            r.working_dir matches Some(d) && d@ == dir@,
    {
        let chars = str_to_chars(dir);
        let mut w = self;
        w.working_dir = Some(chars_to_string(&chars));
        w
    }

    /// A fresh command builder over this wrapper.
    pub fn command(&self) -> (r: crate::builder::XmakeCommandBuilder)
        ensures
            r.wrapper == *self,
            r.command.command_type == XmakeCommandType::Build,
            r.command.args@.len() == 0,
            r.command.env_vars@.len() == 0,
            r.command.inherit_env == true,
    {
        crate::builder::XmakeCommandBuilder::new(self.clone())
    }
}

impl Default for XmakeWrapper {
    fn default() -> (r: Self)
        ensures
            r.xmake_env@ == "xmake"@,
            r.working_dir is None,
    {
        XmakeWrapper::new()
    }
}

} // verus!
