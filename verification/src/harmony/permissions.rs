//! Permissions: asking the system for one and handing its answer to those who
//! asked.
use crate::text::same_text;
use vstd::prelude::*;

verus! {

#[derive(Clone, Copy, PartialEq, Eq, Structural, Debug)]
pub enum Permission {
    AudioInput,
    Camera,
    Location,
    HeadsetCamera,
    SceneAccess,
}

#[derive(Clone, Copy, PartialEq, Eq, Structural, Debug)]
pub enum PermissionStatus {
    Granted,
    DeniedCanRetry,
    DeniedPermanent,
    NotDetermined,
}

/// An answer to a request.
#[derive(Clone, Copy, PartialEq, Eq, Structural, Debug)]
pub struct PermissionResult {
    pub permission: Permission,
    pub request_id: i32,
    pub status: PermissionStatus,
}

/// The short name of a permission and the function that asks for it; none for a
/// permission that the system does not have.
pub open spec fn spec_js_function(permission: Permission) -> Option<(Seq<char>, Seq<char>)> {
    match permission {
        Permission::Camera => Some(("camera"@, "requestCameraPermission"@)),
        Permission::AudioInput => Some(("microphone"@, "requestMicrophonePermission"@)),
        Permission::Location => Some(("location"@, "requestLocationPermission"@)),
        Permission::HeadsetCamera | Permission::SceneAccess => None,
    }
}

/// The short name of a permission and the function that asks for it.
pub fn ohos_permission_js_function(permission: Permission) -> (r: Option<(&'static str, &'static str)>)
    ensures
        match r {
            Some((name, function)) => spec_js_function(permission) == Some((name@, function@)),
            None => spec_js_function(permission) is None,
        },
{
    match permission {
        Permission::Camera => Some(("camera", "requestCameraPermission")),
        Permission::AudioInput => Some(("microphone", "requestMicrophonePermission")),
        Permission::Location => Some(("location", "requestLocationPermission")),
        Permission::HeadsetCamera | Permission::SceneAccess => None,
    }
}

/// The permission with a short name.
pub open spec fn spec_from_name(name: Seq<char>) -> Option<Permission> {
    if name == "camera"@ {
        Some(Permission::Camera)
    } else if name == "microphone"@ {
        Some(Permission::AudioInput)
    } else if name == "location"@ {
        Some(Permission::Location)
    } else {
        None
    }
}

/// The permission with a short name.
pub fn ohos_permission_from_name(name: &str) -> (r: Option<Permission>)
    ensures
        r == spec_from_name(name@),
{
    if same_text(name, "camera") {
        Some(Permission::Camera)
    } else if same_text(name, "microphone") {
        Some(Permission::AudioInput)
    } else if same_text(name, "location") {
        Some(Permission::Location)
    } else {
        None
    }
}

/// The system answers with the short name that a permission was asked for by:
/// it is the same permission.
pub proof fn answers_name_what_was_asked(permission: Permission)
    ensures
        spec_js_function(permission) matches Some((name, _)) ==> spec_from_name(name) == Some(
            permission,
        ),
{
    reveal_strlit("camera");
    reveal_strlit("microphone");
    reveal_strlit("location");
    assert("camera"@[0] != "microphone"@[0]);
    assert("camera"@[0] != "location"@[0]);
    assert("microphone"@[0] != "location"@[0]);
}

/// How an answer is reported.
pub fn permission_status(granted: bool, can_retry: bool) -> (r: PermissionStatus)
    ensures
        r == spec_status(granted, can_retry),
{
    if granted {
        PermissionStatus::Granted
    } else if can_retry {
        PermissionStatus::DeniedCanRetry
    } else {
        PermissionStatus::DeniedPermanent
    }
}

pub open spec fn spec_status(granted: bool, can_retry: bool) -> PermissionStatus {
    if granted {
        PermissionStatus::Granted
    } else if can_retry {
        PermissionStatus::DeniedCanRetry
    } else {
        PermissionStatus::DeniedPermanent
    }
}

/// What a request leads to.
pub enum PermissionStep {
    Answer(PermissionResult),
    /// Call this function of the system.
    Call(&'static str),
}

/// A request that waits for the system.
#[derive(Clone, Copy, PartialEq, Eq, Structural, Debug)]
pub struct PendingPermission {
    pub permission: Permission,
    pub request_id: i32,
}

/// The requests that wait for the system, oldest first.
pub struct PendingPermissions {
    pub pending: Vec<PendingPermission>,
}

/// The requests for a permission, in order.
pub open spec fn asking_for(pending: Seq<PendingPermission>, wanted: Option<Permission>) -> Seq<
    PendingPermission,
>
    decreases pending.len(),
{
    if pending.len() == 0 {
        Seq::empty()
    } else {
        let rest = asking_for(pending.drop_last(), wanted);
        if Some(pending.last().permission) == wanted {
            rest.push(pending.last())
        } else {
            rest
        }
    }
}

/// The requests for anything else, in order.
pub open spec fn asking_for_others(pending: Seq<PendingPermission>, wanted: Option<Permission>) -> Seq<
    PendingPermission,
>
    decreases pending.len(),
{
    if pending.len() == 0 {
        Seq::empty()
    } else {
        let rest = asking_for_others(pending.drop_last(), wanted);
        if Some(pending.last().permission) == wanted {
            rest
        } else {
            rest.push(pending.last())
        }
    }
}

/// The same answer to some requests.
pub open spec fn answers(pending: Seq<PendingPermission>, status: PermissionStatus) -> Seq<
    PermissionResult,
> {
    pending.map_values(
        |p: PendingPermission|
            PermissionResult { permission: p.permission, request_id: p.request_id, status },
    )
}

/// The requests without those of an id.
pub open spec fn without_request(pending: Seq<PendingPermission>, request_id: i32) -> Seq<
    PendingPermission,
>
    decreases pending.len(),
{
    if pending.len() == 0 {
        Seq::empty()
    } else {
        let rest = without_request(pending.drop_last(), request_id);
        if pending.last().request_id != request_id {
            rest.push(pending.last())
        } else {
            rest
        }
    }
}

impl PendingPermissions {
    pub fn new() -> (r: PendingPermissions)
        ensures
            r.pending@.len() == 0,
    {
        PendingPermissions { pending: Vec::new() }
    }

    /// Asks for a permission. One that the system does not have is denied for
    /// good; without a bridge to the system the answer stays open; else the
    /// request waits and the system is called.
    pub fn request(&mut self, permission: Permission, request_id: i32, has_bridge: bool) -> (r:
        PermissionStep)
        ensures
            match spec_js_function(permission) {
                None => {
                    &&& r == PermissionStep::Answer(
                        PermissionResult {
                            permission,
                            request_id,
                            status: PermissionStatus::DeniedPermanent,
                        },
                    )
                    &&& final(self).pending@ == old(self).pending@
                },
                Some((_, function)) => if has_bridge {
                    &&& r matches PermissionStep::Call(f) && f@ == function
                    &&& final(self).pending@ == old(self).pending@.push(
                        PendingPermission { permission, request_id },
                    )
                } else {
                    &&& r == PermissionStep::Answer(
                        PermissionResult {
                            permission,
                            request_id,
                            status: PermissionStatus::NotDetermined,
                        },
                    )
                    &&& final(self).pending@ == old(self).pending@
                },
            },
    {
        match ohos_permission_js_function(permission) {
            None => PermissionStep::Answer(
                PermissionResult {
                    permission,
                    request_id,
                    status: PermissionStatus::DeniedPermanent,
                },
            ),
            Some((_, function)) => {
                if !has_bridge {
                    return PermissionStep::Answer(
                        PermissionResult {
                            permission,
                            request_id,
                            status: PermissionStatus::NotDetermined,
                        },
                    );
                }
                self.pending.push(PendingPermission { permission, request_id });
                PermissionStep::Call(function)
            },
        }
    }

    /// The system could not be called: the request no longer waits, and its
    /// answer stays open.
    pub fn call_failed(&mut self, permission: Permission, request_id: i32) -> (r: PermissionResult)
        ensures
            r == (PermissionResult {
                permission,
                request_id,
                status: PermissionStatus::NotDetermined,
            }),
            final(self).pending@ == without_request(old(self).pending@, request_id),
    {
        let mut kept: Vec<PendingPermission> = Vec::new();
        let ghost all = self.pending@;
        let mut i: usize = 0;
        while i < self.pending.len()
            invariant
                i <= self.pending.len(),
                self.pending@ == all,
                kept@ == without_request(all.take(i as int), request_id),
            decreases self.pending.len() - i,
        {
            assert(all.take(i + 1).drop_last() =~= all.take(i as int));
            let p = self.pending[i];
            if p.request_id != request_id {
                kept.push(p);
            }
            i = i + 1;
        }
        assert(all.take(i as int) =~= all);
        self.pending = kept;
        PermissionResult { permission, request_id, status: PermissionStatus::NotDetermined }
    }

    /// The system answered for the permission with a short name: everyone who
    /// asked for it gets the answer, in order; the other requests go on waiting.
    /// A name that is not known answers nobody.
    pub fn answered(&mut self, name: &str, granted: bool, can_retry: bool) -> (r: Vec<PermissionResult>)
        ensures
            ({
                let wanted = spec_from_name(name@);
                let status = spec_status(granted, can_retry);
                &&& r@ == answers(asking_for(old(self).pending@, wanted), status)
                &&& final(self).pending@ == asking_for_others(old(self).pending@, wanted)
            }),
    {
        let status = permission_status(granted, can_retry);
        let wanted = ohos_permission_from_name(name);
        let mut results: Vec<PermissionResult> = Vec::new();
        let mut kept: Vec<PendingPermission> = Vec::new();
        let ghost all = self.pending@;
        assert(results@ =~= answers(asking_for(all.take(0), wanted), status));
        let mut i: usize = 0;
        while i < self.pending.len()
            invariant
                i <= self.pending.len(),
                self.pending@ == all,
                results@ == answers(asking_for(all.take(i as int), wanted), status),
                kept@ == asking_for_others(all.take(i as int), wanted),
            decreases self.pending.len() - i,
        {
            assert(all.take(i + 1).drop_last() =~= all.take(i as int));
            let p = self.pending[i];
            let mine = match wanted {
                Some(w) => w == p.permission,
                None => false,
            };
            if mine {
                results.push(
                    PermissionResult { permission: p.permission, request_id: p.request_id, status },
                );
            } else {
                kept.push(p);
            }
            assert(results@ =~= answers(asking_for(all.take(i + 1), wanted), status));
            i = i + 1;
        }
        assert(all.take(i as int) =~= all);
        self.pending = kept;
        results
    }
}

/// No request is lost: each is either answered or goes on waiting.
pub proof fn no_request_is_lost(
    pending: Seq<PendingPermission>,
    wanted: Option<Permission>,
    p: PendingPermission,
)
    requires
        pending.contains(p),
    ensures
        asking_for(pending, wanted).contains(p) || asking_for_others(pending, wanted).contains(p),
    decreases pending.len(),
{
    let rest = pending.drop_last();
    if p == pending.last() {
        if Some(p.permission) == wanted {
            let s = asking_for(pending, wanted);
            assert(s[s.len() - 1] == p);
        } else {
            let s = asking_for_others(pending, wanted);
            assert(s[s.len() - 1] == p);
        }
    } else {
        let i = choose|i: int| 0 <= i < pending.len() && pending[i] == p;
        assert(rest[i] == p);
        no_request_is_lost(rest, wanted, p);
        let (a, b) = (asking_for(rest, wanted), asking_for(pending, wanted));
        let (c, d) = (asking_for_others(rest, wanted), asking_for_others(pending, wanted));
        if a.contains(p) {
            let k = choose|k: int| 0 <= k < a.len() && a[k] == p;
            assert(b[k] == p);
        } else {
            let k = choose|k: int| 0 <= k < c.len() && c[k] == p;
            assert(d[k] == p);
        }
    }
}

/// After an answer nobody waits for that permission any more.
pub proof fn answered_permission_is_not_waited_for(
    pending: Seq<PendingPermission>,
    permission: Permission,
)
    ensures
        forall|i: int|
            0 <= i < asking_for_others(pending, Some(permission)).len()
                ==> (#[trigger] asking_for_others(pending, Some(permission))[i]).permission
                != permission,
    decreases pending.len(),
{
    if pending.len() > 0 {
        answered_permission_is_not_waited_for(pending.drop_last(), permission);
        let rest = asking_for_others(pending.drop_last(), Some(permission));
        let all = asking_for_others(pending, Some(permission));
        assert forall|i: int| 0 <= i < all.len() implies (#[trigger] all[i]).permission
            != permission by {
            if i < rest.len() {
                assert(all[i] == rest[i]);
            }
        }
    }
}

/// An answer goes to every request for its permission, in their order and under their own
/// numbers, and leaves the other requests waiting in theirs.
pub proof fn answers_go_to_those_who_asked(
    pending: Seq<PendingPermission>,
    p: PendingPermission,
    permission: Permission,
    status: PermissionStatus,
)
    ensures
        p.permission == permission ==> {
            &&& asking_for(pending.push(p), Some(permission)) == asking_for(
                pending,
                Some(permission),
            ).push(p)
            &&& asking_for_others(pending.push(p), Some(permission)) == asking_for_others(
                pending,
                Some(permission),
            )
        },
        p.permission != permission ==> {
            &&& asking_for(pending.push(p), Some(permission)) == asking_for(
                pending,
                Some(permission),
            )
            &&& asking_for_others(pending.push(p), Some(permission)) == asking_for_others(
                pending,
                Some(permission),
            ).push(p)
        },
        answers(seq![p], status).len() == 1 && answers(seq![p], status)[0].request_id
            == p.request_id && answers(seq![p], status)[0].permission == p.permission && answers(
            seq![p],
            status,
        )[0].status == status,
{
    assert(pending.push(p).drop_last() =~= pending);
}

/// A permission that is given is given, one that is not can be asked for again or not, as
/// the answer says; no other status comes of an answer.
pub proof fn answers_are_what_they_say(granted: bool, can_retry: bool)
    ensures
        spec_status(true, can_retry) is Granted,
        spec_status(false, true) is DeniedCanRetry,
        spec_status(false, false) is DeniedPermanent,
        spec_status(granted, can_retry) is Granted <==> granted,
        !(spec_status(granted, can_retry) is NotDetermined),
{
}

/// A request that failed is taken back, and no other.
pub proof fn a_failed_request_is_taken_back(
    pending: Seq<PendingPermission>,
    p: PendingPermission,
    request_id: i32,
)
    ensures
        without_request(pending.push(p), request_id) == if p.request_id == request_id {
            without_request(pending, request_id)
        } else {
            without_request(pending, request_id).push(p)
        },
        without_request(Seq::empty(), request_id).len() == 0,
{
    assert(pending.push(p).drop_last() =~= pending);
}

} // verus!
