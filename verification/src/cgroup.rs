//! The cgroup under observation and the two control files that are derived
//! from its directory.

use vstd::prelude::*;
use vstd::string::*;

verus! {

/// Name of the file, in a cgroup's directory, on which out-of-memory
/// notifications are subscribed to. It is opened for reading and stays open
/// for as long as the subscription lasts.
pub const OOM_CONTROL: &'static str = "memory.oom_control";

/// Name of the file, in a cgroup's directory, to which the registration
/// record is written, and whose disappearance tells that the cgroup is gone.
pub const EVENT_CONTROL: &'static str = "cgroup.event_control";

/// The path of `name` under the directory `dir`: a rooted `name` stands for
/// itself; otherwise `name` follows `dir`, behind a slash unless `dir` is
/// empty or ends in one.
pub open spec fn joined(dir: Seq<char>, name: Seq<char>) -> Seq<char> {
    if name.len() > 0 && name[0] == '/' {
        name
    } else if dir.len() == 0 || dir.last() == '/' {
        dir + name
    } else {
        dir + seq!['/'] + name
    }
}

/// Builds the path of `name` under the directory `dir`.
pub fn join(dir: &str, name: &str) -> (path: String)
    ensures
        path@ == joined(dir@, name@),
{
    if name.unicode_len() > 0 && name.get_char(0) == '/' {
        return String::from_str(name);
    }
    let dir_len = dir.unicode_len();
    let mut path = String::from_str(dir);
    if dir_len > 0 && dir.get_char(dir_len - 1) != '/' {
        proof {
            reveal_strlit("/");
            assert("/"@ == seq!['/']);
        }
        path.append("/");
    }
    path.append(name);
    path
}

/// The cgroup under observation, named by the path of its directory. The
/// path is taken as it is given.
#[derive(Debug)]
pub struct CgroupHandle {
    dir: String,
}

impl View for CgroupHandle {
    type V = Seq<char>;

    /// The path of the cgroup's directory.
    closed spec fn view(&self) -> Seq<char> {
        self.dir@
    }
}

impl CgroupHandle {
    /// The cgroup whose directory is `dir`.
    pub fn new(dir: &str) -> (handle: CgroupHandle)
        ensures
            handle@ == dir@,
    {
        CgroupHandle { dir: String::from_str(dir) }
    }

    /// The path of the cgroup's directory.
    pub fn dir(&self) -> (dir: &str)
        ensures
            dir@ == self@,
    {
        self.dir.as_str()
    }

    /// The path of the cgroup's OOM-control file.
    pub fn oom_control_path(&self) -> (path: String)
        ensures
            path@ == joined(self@, OOM_CONTROL@),
    {
        join(self.dir.as_str(), OOM_CONTROL)
    }

    /// The path of the cgroup's event-control file.
    pub fn event_control_path(&self) -> (path: String)
        ensures
            path@ == joined(self@, EVENT_CONTROL@),
    {
        join(self.dir.as_str(), EVENT_CONTROL)
    }
}

} // verus!
