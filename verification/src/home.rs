//! Where Makepad keeps its state: directories as texts with `/` between their
//! parts.
use crate::text::{push_text, text_of, to_text};
use vstd::prelude::*;

verus! {

/// The platform's own writable per-app directory, once it was reported.
pub struct PlatformDataDir {
    pub dir: Option<String>,
}

impl PlatformDataDir {
    pub fn new() -> (r: PlatformDataDir)
        ensures
            r.dir is None,
    {
        PlatformDataDir { dir: None }
    }
}

/// Records the platform's writable per-app directory. The first one that is not
/// empty wins.
pub fn set_platform_data_dir(slot: &mut PlatformDataDir, dir: &str)
    ensures
        text_of(final(slot).dir) == if old(slot).dir is None && dir@.len() > 0 {
            Some(dir@)
        } else {
            text_of(old(slot).dir)
        },
{
    if slot.dir.is_none() && !dir.is_empty() {
        slot.dir = Some(dir.to_owned());
    }
}

/// The platform's writable per-app directory, once the platform reported it.
pub fn platform_data_dir(slot: &PlatformDataDir) -> (r: Option<String>)
    ensures
        r == slot.dir,
{
    match &slot.dir {
        Some(d) => Some(d.clone()),
        None => None,
    }
}

/// A name below a directory.
pub open spec fn spec_join(dir: Seq<char>, name: Seq<char>) -> Seq<char> {
    if dir.len() == 0 || dir.last() == '/' {
        dir + name
    } else {
        dir + "/"@ + name
    }
}

/// A name below a directory.
pub fn join(dir: &str, name: &str) -> (r: String)
    ensures
        r@ == spec_join(dir@, name@),
{
    let mut out: Vec<char> = Vec::new();
    push_text(&mut out, dir);
    assert(out@ =~= dir@);
    if out.len() > 0 && out[out.len() - 1] != '/' {
        push_text(&mut out, "/");
    }
    push_text(&mut out, name);
    assert(out@ =~= spec_join(dir@, name@));
    to_text(out.as_slice())
}

/// Makepad's state directory: an explicit one, else the platform's, else
/// `.makepad` below the user's home, or below the temporary directory where
/// there is no home.
pub open spec fn spec_resolve_home(
    explicit: Option<Seq<char>>,
    platform: Option<Seq<char>>,
    user: Option<Seq<char>>,
    temp: Seq<char>,
) -> Seq<char> {
    match explicit {
        Some(d) => d,
        None => match platform {
            Some(d) => d,
            None => spec_join(
                match user {
                    Some(d) => d,
                    None => temp,
                },
                ".makepad"@,
            ),
        },
    }
}

/// Makepad's state directory.
pub fn resolve_home(
    explicit: Option<String>,
    platform: Option<String>,
    user: Option<String>,
    temp: &str,
) -> (r: String)
    ensures
        r@ == spec_resolve_home(text_of(explicit), text_of(platform), text_of(user), temp@),
{
    if let Some(d) = explicit {
        return d;
    }
    if let Some(d) = platform {
        return d;
    }
    match user {
        Some(d) => join(d.as_str(), ".makepad"),
        None => join(temp, ".makepad"),
    }
}

/// Makepad's state directory, with `.makepad` below the platform's own
/// directory where one was reported.
pub open spec fn spec_makepad_home(
    slot: &PlatformDataDir,
    explicit: Option<Seq<char>>,
    user: Option<Seq<char>>,
    temp: Seq<char>,
) -> Seq<char> {
    spec_resolve_home(
        explicit,
        match slot.dir {
            Some(d) => Some(spec_join(d@, ".makepad"@)),
            None => None,
        },
        user,
        temp,
    )
}

/// Makepad's shared per-user state directory, given the explicit one, the
/// user's home and the temporary directory as the environment has them.
pub fn makepad_home(
    slot: &PlatformDataDir,
    explicit: Option<String>,
    user: Option<String>,
    temp: &str,
) -> (r: String)
    ensures
        r@ == spec_makepad_home(slot, text_of(explicit), text_of(user), temp@),
{
    let platform = match &slot.dir {
        Some(d) => Some(join(d.as_str(), ".makepad")),
        None => None,
    };
    resolve_home(explicit, platform, user, temp)
}

/// The root of the native key/value storage: `storage` below that directory.
pub fn storage_dir(
    slot: &PlatformDataDir,
    explicit: Option<String>,
    user: Option<String>,
    temp: &str,
) -> (r: String)
    ensures
        r@ == spec_join(
            spec_makepad_home(slot, text_of(explicit), text_of(user), temp@),
            "storage"@,
        ),
{
    let home = makepad_home(slot, explicit, user, temp);
    join(home.as_str(), "storage")
}

/// The explicit directory wins over everything, and the platform's over the
/// user's.
pub proof fn home_has_an_order(
    explicit: Seq<char>,
    platform: Seq<char>,
    other_platform: Option<Seq<char>>,
    user: Option<Seq<char>>,
    other_user: Option<Seq<char>>,
    temp: Seq<char>,
)
    ensures
        spec_resolve_home(Some(explicit), other_platform, user, temp) == explicit,
        spec_resolve_home(None, Some(platform), user, temp) == spec_resolve_home(
            None,
            Some(platform),
            other_user,
            temp,
        ),
{
}

/// A directory is the same with a slash behind it, and what is joined to it is one step
/// below it.
pub proof fn joining_is_one_step_down(dir: Seq<char>, name: Seq<char>)
    requires
        dir.len() > 0,
        dir.last() != '/',
    ensures
        spec_join(dir + "/"@, name) == spec_join(dir, name),
        spec_join(dir, name) == dir + "/"@ + name,
        spec_resolve_home(None, None, Some(dir), name) == dir + "/.makepad"@,
        spec_resolve_home(None, None, None, dir) == dir + "/.makepad"@,
{
    reveal_strlit("/");
    reveal_strlit(".makepad");
    reveal_strlit("/.makepad");
    let d = dir + "/"@;
    assert(d.last() == '/');
    assert(d + name =~= dir + "/"@ + name);
    assert("/"@ + ".makepad"@ =~= "/.makepad"@);
    assert(dir + "/"@ + ".makepad"@ =~= dir + "/.makepad"@);
}

} // verus!
