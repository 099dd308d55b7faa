//! A fluent builder over the command wrapper.

use vstd::prelude::*;
use crate::assoc::{alookup, akeys_unique};
use crate::command::{XmakeCommand, XmakeCommandType, env_view, strings_view};
use crate::strutil::{str_to_chars, chars_to_string};
use crate::wrapper::XmakeWrapper;

verus! {

/// A command under construction, bound to its wrapper.
#[derive(Debug)]
pub struct XmakeCommandBuilder {
    pub wrapper: XmakeWrapper,
    pub command: XmakeCommand,
}

impl XmakeCommandBuilder {
    /// A fresh builder: the default command is a build.
    pub fn new(wrapper: XmakeWrapper) -> (r: XmakeCommandBuilder)
        ensures
            r.wrapper == wrapper,
            r.command.command_type == XmakeCommandType::Build,
            r.command.args@.len() == 0,
            r.command.env_vars@.len() == 0,
            r.command.inherit_env == true,
    {
        XmakeCommandBuilder { wrapper, command: XmakeCommand::new(XmakeCommandType::Build) }
    }

    /// Set the command type.
    pub fn command_type(self, cmd_type: XmakeCommandType) -> (r: XmakeCommandBuilder)
        ensures
            r.wrapper == self.wrapper,
            r.command.command_type == cmd_type,
            r.command.args == self.command.args,
            r.command.env_vars == self.command.env_vars,
            r.command.inherit_env == self.command.inherit_env,
    {
        let mut b = self;
        b.command.command_type = cmd_type;
        b
    }

    /// Append one argument.
    pub fn arg(self, arg: &str) -> (r: XmakeCommandBuilder)
        ensures
            r.wrapper == self.wrapper,
            r.command.command_type == self.command.command_type,
            strings_view(r.command.args@) == strings_view(self.command.args@).push(arg@),
            r.command.env_vars == self.command.env_vars,
            r.command.inherit_env == self.command.inherit_env,
    {
        let mut b = self;
        let c = b.command;
        b.command = c.arg(arg);
        b
    }

    /// Append several arguments in order.
    pub fn args(self, args: &Vec<String>) -> (r: XmakeCommandBuilder)
        ensures
            r.wrapper == self.wrapper,
            r.command.command_type == self.command.command_type,
            strings_view(r.command.args@) == strings_view(self.command.args@) + strings_view(
                args@,
            ),
            r.command.env_vars == self.command.env_vars,
            r.command.inherit_env == self.command.inherit_env,
    {
        let mut b = self;
        let c = b.command;
        b.command = c.args(args);
        b
    }

    /// Set one environment variable.
    pub fn env(self, key: &str, value: &str) -> (r: XmakeCommandBuilder)
        requires
            self.command.wf(),
        ensures
            r.wrapper == self.wrapper,
            r.command.wf(),
            r.command.command_type == self.command.command_type,
            r.command.args == self.command.args,
            r.command.inherit_env == self.command.inherit_env,
            alookup(env_view(r.command.env_vars@), key@) == Some(value@),
            forall|k: Seq<char>| k != key@ ==> alookup(env_view(r.command.env_vars@), k)
                == alookup(env_view(self.command.env_vars@), k),
    {
        let mut b = self;
        let c = b.command;
        b.command = c.env(key, value);
        b
    }

    /// Set whether the parent environment is inherited.
    pub fn inherit_env(self, inherit: bool) -> (r: XmakeCommandBuilder)
        ensures
            r.wrapper == self.wrapper,
            r.command.command_type == self.command.command_type,
            r.command.args == self.command.args,
            r.command.env_vars == self.command.env_vars,
            r.command.inherit_env == inherit,
    {
        let mut b = self;
        let c = b.command;
        b.command = c.inherit_env(inherit);
        b
    }

    /// A build builder over a wrapper.
    pub fn build(wrapper: XmakeWrapper) -> (r: XmakeCommandBuilder)
        ensures
            r.wrapper == wrapper,
            r.command.command_type == XmakeCommandType::Build,
    {
        XmakeCommandBuilder::new(wrapper).command_type(XmakeCommandType::Build)
    }

    /// A clean builder over a wrapper.
    pub fn clean(wrapper: XmakeWrapper) -> (r: XmakeCommandBuilder)
        ensures
            r.wrapper == wrapper,
            r.command.command_type == XmakeCommandType::Clean,
    {
        XmakeCommandBuilder::new(wrapper).command_type(XmakeCommandType::Clean)
    }

    /// A config builder over a wrapper.
    pub fn config(wrapper: XmakeWrapper) -> (r: XmakeCommandBuilder)
        ensures
            r.wrapper == wrapper,
            r.command.command_type == XmakeCommandType::Config,
    {
        XmakeCommandBuilder::new(wrapper).command_type(XmakeCommandType::Config)
    }

    /// An install builder over a wrapper.
    pub fn install(wrapper: XmakeWrapper) -> (r: XmakeCommandBuilder)
        ensures
            r.wrapper == wrapper,
            r.command.command_type == XmakeCommandType::Install,
    {
        XmakeCommandBuilder::new(wrapper).command_type(XmakeCommandType::Install)
    }

    /// A create builder over a wrapper.
    pub fn create(wrapper: XmakeWrapper) -> (r: XmakeCommandBuilder)
        ensures
            r.wrapper == wrapper,
            r.command.command_type == XmakeCommandType::Create,
    {
        XmakeCommandBuilder::new(wrapper).command_type(XmakeCommandType::Create)
    }

    /// A run builder over a wrapper.
    pub fn run(wrapper: XmakeWrapper) -> (r: XmakeCommandBuilder)
        ensures
            r.wrapper == wrapper,
            r.command.command_type == XmakeCommandType::Run,
    {
        XmakeCommandBuilder::new(wrapper).command_type(XmakeCommandType::Run)
    }

    /// A version builder over a wrapper.
    pub fn version(wrapper: XmakeWrapper) -> (r: XmakeCommandBuilder)
        ensures
            r.wrapper == wrapper,
            r.command.command_type == XmakeCommandType::Version,
    {
        XmakeCommandBuilder::new(wrapper).command_type(XmakeCommandType::Version)
    }

    /// A help builder over a wrapper.
    pub fn help(wrapper: XmakeWrapper) -> (r: XmakeCommandBuilder)
        ensures
            r.wrapper == wrapper,
            r.command.command_type == XmakeCommandType::Help,
    {
        XmakeCommandBuilder::new(wrapper).command_type(XmakeCommandType::Help)
    }

    /// A show builder over a wrapper.
    pub fn show(wrapper: XmakeWrapper) -> (r: XmakeCommandBuilder)
        ensures
            r.wrapper == wrapper,
            r.command.command_type == XmakeCommandType::Show,
    {
        XmakeCommandBuilder::new(wrapper).command_type(XmakeCommandType::Show)
    }

    /// A package-management builder over a wrapper.
    pub fn package(wrapper: XmakeWrapper) -> (r: XmakeCommandBuilder)
        ensures
            r.wrapper == wrapper,
            r.command.command_type == XmakeCommandType::Package,
    {
        XmakeCommandBuilder::new(wrapper).command_type(XmakeCommandType::Package)
    }

    /// A test builder over a wrapper.
    pub fn test(wrapper: XmakeWrapper) -> (r: XmakeCommandBuilder)
        ensures
            r.wrapper == wrapper,
            r.command.command_type == XmakeCommandType::Test,
    {
        XmakeCommandBuilder::new(wrapper).command_type(XmakeCommandType::Test)
    }

    /// A custom-command builder over a wrapper.
    pub fn custom(wrapper: XmakeWrapper, cmd: &str) -> (r: XmakeCommandBuilder)
        ensures
            r.wrapper == wrapper,
            r.command.command_type matches XmakeCommandType::Custom(c) && c@ == cmd@,
    {
        let chars = str_to_chars(cmd);
        let owned = chars_to_string(&chars);
        XmakeCommandBuilder::new(wrapper).command_type(XmakeCommandType::Custom(owned))
    }
}

/// Convenience builders directly on the wrapper.
impl XmakeWrapper {
    /// Build the project.
    pub fn build(&self) -> (r: XmakeCommandBuilder)
        ensures
            r.wrapper == *self,
            r.command.command_type == XmakeCommandType::Build,
    {
        XmakeCommandBuilder::build(self.clone())
    }

    /// Clean the project.
    pub fn clean(&self) -> (r: XmakeCommandBuilder)
        ensures
            r.wrapper == *self,
            r.command.command_type == XmakeCommandType::Clean,
    {
        XmakeCommandBuilder::clean(self.clone())
    }

    /// Configure the project.
    pub fn config(&self) -> (r: XmakeCommandBuilder)
        ensures
            r.wrapper == *self,
            r.command.command_type == XmakeCommandType::Config,
    {
        XmakeCommandBuilder::config(self.clone())
    }

    /// Install the project.
    pub fn install(&self) -> (r: XmakeCommandBuilder)
        ensures
            r.wrapper == *self,
            r.command.command_type == XmakeCommandType::Install,
    {
        XmakeCommandBuilder::install(self.clone())
    }

    /// Create a new project.
    pub fn create(&self) -> (r: XmakeCommandBuilder)
        ensures
            r.wrapper == *self,
            r.command.command_type == XmakeCommandType::Create,
    {
        XmakeCommandBuilder::create(self.clone())
    }

    /// Run the project.
    pub fn run(&self) -> (r: XmakeCommandBuilder)
        ensures
            r.wrapper == *self,
            r.command.command_type == XmakeCommandType::Run,
    {
        XmakeCommandBuilder::run(self.clone())
    }

    /// Show version information.
    pub fn version(&self) -> (r: XmakeCommandBuilder)
        ensures
            r.wrapper == *self,
            r.command.command_type == XmakeCommandType::Version,
    {
        XmakeCommandBuilder::version(self.clone())
    }

    /// Show help information.
    pub fn help(&self) -> (r: XmakeCommandBuilder)
        ensures
            r.wrapper == *self,
            r.command.command_type == XmakeCommandType::Help,
    {
        XmakeCommandBuilder::help(self.clone())
    }

    /// Show project information.
    pub fn show(&self) -> (r: XmakeCommandBuilder)
        ensures
            r.wrapper == *self,
            r.command.command_type == XmakeCommandType::Show,
    {
        XmakeCommandBuilder::show(self.clone())
    }

    /// Manage packages.
    pub fn package(&self) -> (r: XmakeCommandBuilder)
        ensures
            r.wrapper == *self,
            r.command.command_type == XmakeCommandType::Package,
    {
        XmakeCommandBuilder::package(self.clone())
    }

    /// Test the project.
    pub fn test(&self) -> (r: XmakeCommandBuilder)
        ensures
            r.wrapper == *self,
            r.command.command_type == XmakeCommandType::Test,
    {
        XmakeCommandBuilder::test(self.clone())
    }

    /// Run a custom command.
    pub fn custom(&self, cmd: &str) -> (r: XmakeCommandBuilder)
        ensures
            r.wrapper == *self,
            r.command.command_type matches XmakeCommandType::Custom(c) && c@ == cmd@,
    {
        XmakeCommandBuilder::custom(self.clone(), cmd)
    }
}

} // verus!
