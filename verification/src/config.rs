//! Run configuration: the boot stage, the run mode, the artifact version
//! channel, and how each is read from boot parameters.

use vstd::prelude::*;

use crate::kparams::Params;
use crate::strutil;

verus! {

/// The mode a node runs in; it selects the discovery manifest and the
/// repository channel.
#[derive(Clone, Copy, Debug, PartialEq, Eq, Structural)]
pub enum RunMode {
    Prod,
    Test,
    Dev,
    QA,
}

impl RunMode {
    /// The channel name repository listings use for this mode.
    pub open spec fn spec_name(&self) -> Seq<char> {
        match self {
            RunMode::Prod => "production"@,
            RunMode::QA => "qa"@,
            RunMode::Test => "testing"@,
            RunMode::Dev => "development"@,
        }
    }

    /// The channel name, rendered.
    pub fn to_name(&self) -> (r: &'static str)
        ensures
            r@ == self.spec_name(),
    {
        match self {
            RunMode::Prod => "production",
            RunMode::QA => "qa",
            RunMode::Test => "testing",
            RunMode::Dev => "development",
        }
    }

    /// The discovery manifest file for this mode.
    pub open spec fn spec_config_name(&self) -> Seq<char> {
        match self {
            RunMode::Prod => "production.json"@,
            RunMode::QA => "qa.json"@,
            RunMode::Test => "testing.json"@,
            RunMode::Dev => "development.json"@,
        }
    }

    pub fn config_name(&self) -> (r: &'static str)
        ensures
            r@ == self.spec_config_name(),
    {
        match self {
            RunMode::Prod => "production.json",
            RunMode::QA => "qa.json",
            RunMode::Test => "testing.json",
            RunMode::Dev => "development.json",
        }
    }
}

/// The artifact version channel.
#[derive(Clone, Copy, Debug, PartialEq, Eq, Structural)]
pub enum Version {
    V3,
    V3Light,
}

/// The run configuration one stage works under.
#[derive(Clone, Copy)]
pub struct Config {
    pub stage: u32,
    pub debug: bool,
    pub runmode: RunMode,
    pub version: Version,
}

/// The mode a `runmode` boot parameter selects, if it names one.
pub open spec fn spec_mode_of(s: Seq<char>) -> Option<RunMode> {
    if s == "prod"@ || s == "production"@ {
        Some(RunMode::Prod)
    } else if s == "dev"@ || s == "development"@ {
        Some(RunMode::Dev)
    } else if s == "test"@ || s == "testing"@ {
        Some(RunMode::Test)
    } else if s == "qa"@ {
        Some(RunMode::QA)
    } else {
        None
    }
}

/// The mode the boot parameters select, when they are acceptable: absent
/// means production; a `runmode` key with no value, or with an unknown one,
/// selects nothing and is fatal.
pub open spec fn spec_runmode_outcome(params: &Params) -> Option<RunMode> {
    match params.spec_get("runmode"@) {
        None => Some(RunMode::Prod),
        Some(ov) => match ov {
            None => None,
            Some(v) => spec_mode_of(v),
        },
    }
}

/// The run mode the boot parameters select, exactly as
/// [`spec_runmode_outcome`] reads them.
pub fn runmode(params: &Params) -> (r: Result<RunMode, String>)
    ensures
        r is Ok <==> spec_runmode_outcome(params) is Some,
        r matches Ok(m) ==> spec_runmode_outcome(params) == Some(m),
{
    match params.get("runmode") {
        None => Ok(RunMode::Prod),
        Some(None) => Err("missing runmode value".to_owned()),
        Some(Some(v)) => {
            if strutil::str_eq(v.as_str(), "prod") || strutil::str_eq(v.as_str(), "production") {
                Ok(RunMode::Prod)
            } else if strutil::str_eq(v.as_str(), "dev") || strutil::str_eq(
                v.as_str(),
                "development",
            ) {
                Ok(RunMode::Dev)
            } else if strutil::str_eq(v.as_str(), "test") || strutil::str_eq(
                v.as_str(),
                "testing",
            ) {
                Ok(RunMode::Test)
            } else if strutil::str_eq(v.as_str(), "qa") {
                Ok(RunMode::QA)
            } else {
                Err(strutil::concat2("unknown runmode: ", v.as_str()))
            }
        },
    }
}

/// The channel a `version` boot parameter selects, if it names one.
pub open spec fn spec_version_of(s: Seq<char>) -> Option<Version> {
    if s == "v3"@ {
        Some(Version::V3)
    } else if s == "v3light"@ {
        Some(Version::V3Light)
    } else {
        None
    }
}

/// The channel the boot parameters select, when they are acceptable:
/// absent, or present with no value, means the default channel; an unknown
/// value selects nothing and is fatal.
pub open spec fn spec_version_outcome(params: &Params) -> Option<Version> {
    match params.spec_get("version"@) {
        None => Some(Version::V3),
        Some(ov) => match ov {
            None => Some(Version::V3),
            Some(v) => spec_version_of(v),
        },
    }
}

/// The version channel the boot parameters select, exactly as
/// [`spec_version_outcome`] reads them.
pub fn version(params: &Params) -> (r: Result<Version, String>)
    ensures
        r is Ok <==> spec_version_outcome(params) is Some,
        r matches Ok(v) ==> spec_version_outcome(params) == Some(v),
{
    match params.get("version") {
        None => Ok(Version::V3),
        Some(None) => Ok(Version::V3),
        Some(Some(v)) => {
            if strutil::str_eq(v.as_str(), "v3") {
                Ok(Version::V3)
            } else if strutil::str_eq(v.as_str(), "v3light") {
                Ok(Version::V3Light)
            } else {
                Err(strutil::concat2("unknown version: ", v.as_str()))
            }
        },
    }
}

impl Config {
    /// Builds the configuration for one stage from the parsed command line
    /// and boot parameters. It succeeds exactly when the stage is at least 1,
    /// the boot parameters select a run mode, and — for the stage that
    /// installs — they select a version channel; the configuration then
    /// carries exactly those selections.
    pub fn assemble(stage: u32, debug: bool, params: &Params) -> (r: Result<Config, String>)
        ensures
            r is Ok <==> (stage >= 1 && spec_runmode_outcome(params) is Some && (stage == 2
                ==> spec_version_outcome(params) is Some)),
            r matches Ok(c) ==> ({
                &&& c.stage == stage
                &&& c.debug == debug
                &&& Some(c.runmode) == spec_runmode_outcome(params)
                &&& c.version == (if stage == 2 {
                    spec_version_outcome(params)->0
                } else {
                    Version::V3
                })
            }),
    {
        if stage == 0 {
            return Err("invalid stage value 0, stages starting from 1".to_owned());
        }
        let ver: Version = if stage == 2 {
            match version(params) {
                Ok(v) => v,
                Err(e) => {
                    return Err(e);
                },
            }
        } else {
            Version::V3
        };
        let mode = match runmode(params) {
            Ok(m) => m,
            Err(e) => {
                return Err(e);
            },
        };
        Ok(Config { stage, debug, runmode: mode, version: ver })
    }
}

} // verus!
