use vstd::prelude::*;
use vstd::string::*;

use crate::archive::{extract, extracts, ExtractedEntry};
use crate::chromedriver::{chrome_token, chrome_url_text, latest_release_in, Chromedriver, CHROME_VERSIONS_URL};
use crate::error::{Error, TargetProblem};
use crate::geckodriver::{gecko_token, gecko_url_text, Geckodriver};
use crate::location::{join_path, joined_path};
use crate::platform::Platform;
use crate::text::names_of;
use crate::urls::{archive_filename, last_segment, url_serialization};

verus! {

/// A driver family.
#[derive(Debug, Clone, Copy, PartialEq, Eq, Structural)]
pub enum Driver {
    Chrome,
    Gecko,
}

impl Driver {
    /// The executable's base name: `chromedriver` or `geckodriver`.
    pub open spec fn name_spec(self) -> Seq<char> {
        match self {
            Driver::Chrome => "chromedriver"@,
            Driver::Gecko => "geckodriver"@,
        }
    }

    pub fn as_str(&self) -> (r: &'static str)
        ensures
            r@ == self.name_spec(),
    {
        match self {
            Driver::Chrome => "chromedriver",
            Driver::Gecko => "geckodriver",
        }
    }

    /// The family that an executable name stands for.
    pub fn from_str(s: &str) -> (r: Option<Driver>)
        ensures
            r matches Some(d) ==> d.name_spec() == s@,
            s@ == "chromedriver"@ ==> r == Some(Driver::Chrome),
            s@ == "geckodriver"@ ==> r == Some(Driver::Gecko),
            s@ != "chromedriver"@ && s@ != "geckodriver"@ ==> r is None,
    {
        proof {
            reveal_strlit("chromedriver");
            reveal_strlit("geckodriver");
            assert("chromedriver"@[0] != "geckodriver"@[0]);
        }
        if crate::text::text_is(s, "chromedriver") {
            Some(Driver::Chrome)
        } else if crate::text::text_is(s, "geckodriver") {
            Some(Driver::Gecko)
        } else {
            None
        }
    }

    /// The names under which archives hold this family's executable: the base name, and
    /// the base name with `.exe`.
    pub fn executable_names(&self) -> (r: Vec<String>)
        ensures
            names_of(r@) == seq![self.name_spec(), self.name_spec() + ".exe"@],
    {
        let name = String::from_str(self.as_str());
        let exe = String::from_str(self.as_str()).concat(".exe");
        let mut v: Vec<String> = Vec::new();
        v.push(name);
        v.push(exe);
        assert(names_of(v@) =~= seq![self.name_spec(), self.name_spec() + ".exe"@]);
        v
    }
}

/// How far an installation has come.
#[derive(Debug)]
pub enum Stage {
    CheckTarget,
    ResolveRelease,
    Download { url: String },
    Write { path: String },
    Finished,
    Failed,
}

/// What the caller is asked to do next.
#[derive(Debug)]
pub enum Action {
    /// Report whether `dir` exists and whether it is a directory.
    CheckTarget { dir: String },
    /// Follow redirects from `url` and report the address they end at.
    FetchFinalUrl { url: String },
    /// Fetch the text at `url`.
    FetchText { url: String },
    /// Fetch the bytes at `url`.
    FetchBytes { url: String },
    /// Write `contents` to `path` and make the file executable.
    WriteExecutable { path: String, contents: Vec<u8> },
    /// The executable is installed at `path`.
    Done { path: String },
    /// The installation failed.
    Fail { error: Error },
}

/// Whether an action goes to the network.
pub open spec fn is_request(a: Action) -> bool {
    a is FetchFinalUrl || a is FetchText || a is FetchBytes
}

/// What is wrong with a target directory, from whether it exists and is a directory.
pub open spec fn target_problem(exists: bool, is_dir: bool) -> Option<TargetProblem> {
    if !exists {
        Some(TargetProblem::Missing)
    } else if !is_dir {
        Some(TargetProblem::NotADirectory)
    } else {
        None
    }
}

/// One installation of a driver into a directory, driven step by step: each step takes
/// what the caller observed and returns the next action.
pub struct Install {
    pub driver: Driver,
    pub target_dir: String,
    pub platform: Platform,
    pub stage: Stage,
}

impl Install {
    pub fn new(driver: Driver, target_dir: String, platform: Platform) -> (r: Install)
        ensures
            r.driver == driver,
            r.target_dir == target_dir,
            r.platform == platform,
            r.stage is CheckTarget,
    {
        Install { driver, target_dir, platform, stage: Stage::CheckTarget }
    }

    /// The first action: check the target directory.
    pub fn start(&self) -> (r: Action)
        ensures
            r matches Action::CheckTarget { dir } && dir@ == self.target_dir@,
    {
        Action::CheckTarget { dir: self.target_dir.clone() }
    }

    /// After the directory check: fail unless it is an existing directory, else ask for
    /// the release metadata.
    pub fn on_target_checked(&mut self, exists: bool, is_dir: bool) -> (r: Action)
        requires
            old(self).stage is CheckTarget,
        ensures
            final(self).driver == old(self).driver,
            final(self).target_dir == old(self).target_dir,
            final(self).platform == old(self).platform,
            match target_problem(exists, is_dir) {
                Some(p) => r == (Action::Fail { error: Error::InvalidTarget { problem: p } })
                    && final(self).stage is Failed,
                None => final(self).stage is ResolveRelease && match old(self).driver {
                    Driver::Gecko => r matches Action::FetchFinalUrl { url } && url@
                        == crate::geckodriver::GECKO_BASE_URL@ + "/latest"@,
                    Driver::Chrome => r matches Action::FetchText { url } && url@
                        == CHROME_VERSIONS_URL@,
                },
            },
    {
        if !exists {
            self.stage = Stage::Failed;
            return Action::Fail { error: Error::InvalidTarget { problem: TargetProblem::Missing } };
        }
        if !is_dir {
            self.stage = Stage::Failed;
            return Action::Fail {
                error: Error::InvalidTarget { problem: TargetProblem::NotADirectory },
            };
        }
        self.stage = Stage::ResolveRelease;
        match self.driver {
            Driver::Gecko => Action::FetchFinalUrl { url: Geckodriver::new().latest_release_url() },
            Driver::Chrome => Action::FetchText { url: String::from_str(CHROME_VERSIONS_URL) },
        }
    }

    /// After the release metadata came: for geckodriver the address the latest-release
    /// page redirected to, for chromedriver the known-good versions document. Asks for
    /// the archive.
    pub fn on_release(&mut self, body: &str) -> (r: Action)
        requires
            old(self).stage is ResolveRelease,
        ensures
            final(self).driver == old(self).driver,
            final(self).target_dir == old(self).target_dir,
            final(self).platform == old(self).platform,
            r is FetchBytes || r is Fail,
            r is FetchBytes ==> (final(self).stage matches Stage::Download { url: s } && r matches Action::FetchBytes {
                url,
            } && url@ == s@),
            r is Fail ==> final(self).stage is Failed,
            old(self).driver == Driver::Gecko ==> match last_segment(body@) {
                None => r matches Action::Fail { error } && error is Resolution,
                Some(rel) => download_step(
                    gecko_token(old(self).platform.os, old(self).platform.pointer_width),
                    |t: Seq<char>| gecko_url_text(rel, t),
                    r,
                ),
            },
            old(self).driver == Driver::Chrome ==> match latest_release_in(body@) {
                None => r matches Action::Fail { error } && error is Resolution,
                Some(rel) => download_step(
                    chrome_token(old(self).platform.os),
                    |t: Seq<char>| chrome_url_text(rel, t),
                    r,
                ),
            },
    {
        let url = match self.driver {
            Driver::Gecko => {
                let g = Geckodriver::new();
                match g.latest_version(body) {
                    Ok(release) => g.direct_download_url(
                        release.as_str(),
                        &self.platform.os,
                        self.platform.pointer_width,
                    ),
                    Err(e) => Err(e),
                }
            },
            Driver::Chrome => {
                let c = Chromedriver::new();
                match c.latest_version(body) {
                    Ok(release) => c.direct_download_url(release.as_str(), &self.platform.os),
                    Err(e) => Err(e),
                }
            },
        };
        match url {
            Ok(u) => {
                self.stage = Stage::Download { url: u.clone() };
                Action::FetchBytes { url: u }
            },
            Err(e) => {
                self.stage = Stage::Failed;
                Action::Fail { error: e }
            },
        }
    }

    /// After the archive came: takes the family's executable out of it and asks for it
    /// to be written into the target directory, at the path it had in the archive.
    pub fn on_archive(&mut self, bytes: Vec<u8>) -> (r: Action)
        requires
            old(self).stage is Download,
        ensures
            final(self).driver == old(self).driver,
            final(self).target_dir == old(self).target_dir,
            final(self).platform == old(self).platform,
            exists|x: Result<ExtractedEntry, Error>|
                #![trigger extracts(archive_name_of(old(self).stage), bytes@, executable_names(old(self).driver), x)]
                extracts(archive_name_of(old(self).stage), bytes@, executable_names(old(self).driver), x)
                    && archive_action(old(self).target_dir@, x, r, final(self).stage),
    {
        let url = match &self.stage {
            Stage::Download { url } => url.clone(),
            _ => String::new(),
        };
        let filename = archive_filename(url.as_str());
        let wanted = self.driver.executable_names();
        let res = extract(filename.as_str(), bytes, &wanted);
        let ghost taken = res;
        assert(filename@ == archive_name_of(old(self).stage));
        assert(names_of(wanted@) == executable_names(self.driver));
        let action = match res {
            Ok(entry) => {
                let path = join_path(self.target_dir.as_str(), entry.name.as_str());
                self.stage = Stage::Write { path: path.clone() };
                Action::WriteExecutable { path, contents: entry.contents }
            },
            Err(e) => {
                self.stage = Stage::Failed;
                Action::Fail { error: e }
            },
        };
        assert(archive_action(old(self).target_dir@, taken, action, self.stage));
        action
    }

    /// After the executable was written: the installation is done.
    pub fn on_written(&mut self) -> (r: Action)
        requires
            old(self).stage is Write,
        ensures
            final(self).stage is Finished,
            old(self).stage matches Stage::Write { path: p } && r matches Action::Done { path }
                && path@ == p@,
    {
        let path = match &self.stage {
            Stage::Write { path } => path.clone(),
            _ => String::new(),
        };
        self.stage = Stage::Finished;
        Action::Done { path }
    }
}

/// The step once the release is known: fetch the archive at the address built for the
/// platform's part, or fail where the platform has none or the address does not parse.
pub open spec fn download_step(
    token: Option<Seq<char>>,
    address: spec_fn(Seq<char>) -> Seq<char>,
    r: Action,
) -> bool {
    match token {
        None => r matches Action::Fail { error } && error is UnsupportedPlatform,
        Some(t) => match url_serialization(address(t)) {
            Some(u) => r matches Action::FetchBytes { url } && url@ == u,
            None => r matches Action::Fail { error } && error is InvalidUrl,
        },
    }
}

/// The names under which archives hold a family's executable.
pub open spec fn executable_names(d: Driver) -> Seq<Seq<char>> {
    seq![d.name_spec(), d.name_spec() + ".exe"@]
}

/// The step after extraction: write the entry into the target directory at the path it
/// had in the archive, or fail with the extraction's error.
pub open spec fn archive_action(
    target_dir: Seq<char>,
    x: Result<ExtractedEntry, Error>,
    r: Action,
    stage: Stage,
) -> bool {
    match x {
        Ok(e) => {
            &&& r matches Action::WriteExecutable { path, contents } && path@ == joined_path(
                target_dir,
                e.name@,
            ) && contents@ == e.contents@
            &&& stage matches Stage::Write { path: p } && p@ == joined_path(target_dir, e.name@)
        },
        Err(e) => r == (Action::Fail { error: e }) && stage is Failed,
    }
}

/// The archive's file name for the address a download stage fetches.
pub open spec fn archive_name_of(stage: Stage) -> Seq<char> {
    match stage {
        Stage::Download { url } => match last_segment(url@) {
            Some(s) => s,
            None => crate::urls::PLACEHOLDER_ARCHIVE_NAME@,
        },
        _ => Seq::empty(),
    }
}

/// An installation into a directory that does not exist fails with an invalid-target
/// error before any request: its first action only checks the directory, and the check's
/// outcome is that failure, which leaves no step that could fetch.
pub proof fn law_missing_target_fails_without_request(is_dir: bool)
    ensures
        target_problem(false, is_dir) == Some(TargetProblem::Missing),
        !is_request(
            Action::Fail { error: Error::InvalidTarget { problem: TargetProblem::Missing } },
        ),
        forall|dir: String| !is_request(Action::CheckTarget { dir }),
{
}

} // verus!
