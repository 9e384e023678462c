//! Typed construction of `adb` argument lists.

use vstd::prelude::*;
use vstd::string::StringExecFns;

verus! {

/// Mathematical image of an [`AdbCommand`].
pub ghost enum AdbCommandV {
    Version,
    Devices { long: bool },
    Shell(Seq<Seq<char>>),
    Install { path: Seq<char>, reinstall: bool },
    Uninstall { package: Seq<char>, keep_data: bool },
    Push { local: Seq<char>, remote: Seq<char> },
    Pull { remote: Seq<char>, local: Seq<char> },
    Reboot { mode: Option<Seq<char>> },
    StartServer,
    KillServer,
    GetProp(Seq<char>),
}

/// The `adb` commands the engine issues.
#[derive(Debug, Clone)]
pub enum AdbCommand {
    Version,
    Devices { long: bool },
    Shell(Vec<String>),
    Install { path: String, reinstall: bool },
    Uninstall { package: String, keep_data: bool },
    Push { local: String, remote: String },
    Pull { remote: String, local: String },
    Reboot { mode: Option<String> },
    StartServer,
    KillServer,
    GetProp(String),
}

impl View for AdbCommand {
    type V = AdbCommandV;

    open spec fn view(&self) -> AdbCommandV {
        match self {
            AdbCommand::Version => AdbCommandV::Version,
            AdbCommand::Devices { long } => AdbCommandV::Devices { long: *long },
            AdbCommand::Shell(args) => AdbCommandV::Shell(args.deep_view()),
            AdbCommand::Install { path, reinstall } => AdbCommandV::Install {
                path: path@,
                reinstall: *reinstall,
            },
            AdbCommand::Uninstall { package, keep_data } => AdbCommandV::Uninstall {
                package: package@,
                keep_data: *keep_data,
            },
            AdbCommand::Push { local, remote } => AdbCommandV::Push {
                local: local@,
                remote: remote@,
            },
            AdbCommand::Pull { remote, local } => AdbCommandV::Pull {
                remote: remote@,
                local: local@,
            },
            AdbCommand::Reboot { mode } => AdbCommandV::Reboot {
                mode: match mode {
                    Some(m) => Some(m@),
                    None => None,
                },
            },
            AdbCommand::StartServer => AdbCommandV::StartServer,
            AdbCommand::KillServer => AdbCommandV::KillServer,
            AdbCommand::GetProp(prop) => AdbCommandV::GetProp(prop@),
        }
    }
}

/// The argument list each command expands to.
pub open spec fn to_args_spec(c: AdbCommandV) -> Seq<Seq<char>> {
    match c {
        AdbCommandV::Version => seq!["version"@],
        AdbCommandV::Devices { long } => if long {
            seq!["devices"@, "-l"@]
        } else {
            seq!["devices"@]
        },
        AdbCommandV::Shell(args) => seq!["shell"@] + args,
        AdbCommandV::Install { path, reinstall } => if reinstall {
            seq!["install"@, "-r"@, path]
        } else {
            seq!["install"@, path]
        },
        AdbCommandV::Uninstall { package, keep_data } => if keep_data {
            seq!["uninstall"@, "-k"@, package]
        } else {
            seq!["uninstall"@, package]
        },
        AdbCommandV::Push { local, remote } => seq!["push"@, local, remote],
        AdbCommandV::Pull { remote, local } => seq!["pull"@, remote, local],
        AdbCommandV::Reboot { mode } => match mode {
            Some(m) => seq!["reboot"@, m],
            None => seq!["reboot"@],
        },
        AdbCommandV::StartServer => seq!["start-server"@],
        AdbCommandV::KillServer => seq!["kill-server"@],
        AdbCommandV::GetProp(prop) => seq!["shell"@, "getprop"@, prop],
    }
}

impl AdbCommand {
    /// Expand the command into the argument list handed to `adb`.
    pub fn to_args(&self) -> (r: Vec<String>)
        ensures
            r.deep_view() == to_args_spec(self@),
    {
        let mut args: Vec<String> = Vec::new();
        match self {
            AdbCommand::Version => {
                args.push(String::from_str("version"));
            },
            AdbCommand::Devices { long } => {
                args.push(String::from_str("devices"));
                if *long {
                    args.push(String::from_str("-l"));
                }
            },
            AdbCommand::Shell(shell_args) => {
                args.push(String::from_str("shell"));
                let mut i: usize = 0;
                while i < shell_args.len()
                    invariant
                        0 <= i <= shell_args@.len(),
                        args.deep_view() == seq!["shell"@] + shell_args.deep_view().take(i as int),
                    decreases shell_args@.len() - i,
                {
                    let ghost prev = args.deep_view();
                    let x = shell_args[i].clone();
                    assert(x@ == shell_args@[i as int]@);
                    args.push(x);
                    proof {
                        assert(args.deep_view() =~~= prev.push(x@));
                        assert(prev.push(x@) =~~= seq!["shell"@]
                            + shell_args.deep_view().take(i + 1 as int));
                    }
                    i = i + 1;
                }
                proof {
                    assert(shell_args.deep_view().take(shell_args@.len() as int)
                        =~~= shell_args.deep_view());
                }
            },
            AdbCommand::Install { path, reinstall } => {
                args.push(String::from_str("install"));
                if *reinstall {
                    args.push(String::from_str("-r"));
                }
                args.push(path.clone());
            },
            AdbCommand::Uninstall { package, keep_data } => {
                args.push(String::from_str("uninstall"));
                if *keep_data {
                    args.push(String::from_str("-k"));
                }
                args.push(package.clone());
            },
            AdbCommand::Push { local, remote } => {
                args.push(String::from_str("push"));
                args.push(local.clone());
                args.push(remote.clone());
            },
            AdbCommand::Pull { remote, local } => {
                args.push(String::from_str("pull"));
                args.push(remote.clone());
                args.push(local.clone());
            },
            AdbCommand::Reboot { mode } => {
                args.push(String::from_str("reboot"));
                if let Some(m) = mode {
                    args.push(m.clone());
                }
            },
            AdbCommand::StartServer => {
                args.push(String::from_str("start-server"));
            },
            AdbCommand::KillServer => {
                args.push(String::from_str("kill-server"));
            },
            AdbCommand::GetProp(prop) => {
                args.push(String::from_str("shell"));
                args.push(String::from_str("getprop"));
                args.push(prop.clone());
            },
        }
        proof {
            assert(args.deep_view() =~~= to_args_spec(self@));
        }
        args
    }
}

/// Builds full `adb` argument lists, prefixing `-s <device>` when a
/// target device is set.
pub struct AdbCommandBuilder {
    pub device_id: Option<String>,
}

/// The target prefix contributed by the builder.
pub open spec fn target_prefix_spec(device_id: Option<Seq<char>>) -> Seq<Seq<char>> {
    match device_id {
        Some(id) => seq!["-s"@, id],
        None => Seq::empty(),
    }
}

impl View for AdbCommandBuilder {
    type V = Option<Seq<char>>;

    open spec fn view(&self) -> Option<Seq<char>> {
        match self.device_id {
            Some(ref id) => Some(id@),
            None => None,
        }
    }
}

impl AdbCommandBuilder {
    /// A builder with no target device.
    pub fn new() -> (r: Self)
        ensures
            r@ is None,
    {
        AdbCommandBuilder { device_id: None }
    }

    /// Target a specific device by its identifier.
    pub fn target(self, device_id: &str) -> (r: Self)
        ensures
            r@ == Some(device_id@),
    {
        AdbCommandBuilder { device_id: Some(String::from_str(device_id)) }
    }

    /// The full argument list: the target prefix, then the command.
    pub fn build(&self, command: AdbCommand) -> (r: Vec<String>)
        ensures
            r.deep_view() == target_prefix_spec(self@) + to_args_spec(command@),
    {
        let mut args: Vec<String> = Vec::new();
        if let Some(ref id) = self.device_id {
            args.push(String::from_str("-s"));
            args.push(id.clone());
        }
        let tail = command.to_args();
        let mut i: usize = 0;
        while i < tail.len()
            invariant
                0 <= i <= tail@.len(),
                args.deep_view() == target_prefix_spec(self@) + tail.deep_view().take(i as int),
            decreases tail@.len() - i,
        {
            let ghost prev = args.deep_view();
            let x = tail[i].clone();
            assert(x@ == tail@[i as int]@);
            args.push(x);
            proof {
                assert(args.deep_view() =~~= prev.push(x@));
                assert(prev.push(x@) =~~= target_prefix_spec(self@)
                    + tail.deep_view().take(i + 1 as int));
            }
            i = i + 1;
        }
        proof {
            assert(tail.deep_view().take(tail@.len() as int) =~~= tail.deep_view());
        }
        args
    }
}

/// Accumulates the words of an `adb shell` command.
pub struct ShellCommandBuilder {
    pub args: Vec<String>,
}

impl View for ShellCommandBuilder {
    type V = Seq<Seq<char>>;

    open spec fn view(&self) -> Seq<Seq<char>> {
        self.args.deep_view()
    }
}

impl ShellCommandBuilder {
    /// Start a shell command from its program word.
    pub fn new(command: &str) -> (r: Self)
        ensures
            r@ == seq![command@],
    {
        let mut args: Vec<String> = Vec::new();
        args.push(String::from_str(command));
        proof {
            assert(args.deep_view() =~~= seq![command@]);
        }
        ShellCommandBuilder { args }
    }

    /// Append one argument word.
    pub fn arg(self, value: &str) -> (r: Self)
        ensures
            r@ == self@.push(value@),
    {
        let mut args = self.args;
        args.push(String::from_str(value));
        proof {
            assert(args.deep_view() =~~= self@.push(value@));
        }
        ShellCommandBuilder { args }
    }

    /// The accumulated words.
    pub fn build(self) -> (r: Vec<String>)
        ensures
            r.deep_view() == self@,
    {
        self.args
    }
}

} // verus!
