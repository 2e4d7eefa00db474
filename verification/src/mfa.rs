//! The registry of MFA devices: for each profile the secret key of its
//! device.

use crate::error::{ConfError, ConfErrorView};
use crate::text::str_eq;
use vstd::prelude::*;
use vstd::string::*;

verus! {

/// The name of the registry file below the home directory.
pub const REGISTRY_FILENAME: &'static str = ".aws/awsmfa.yml";

/// What is shown for a registry without devices.
pub const EMPTY_NOTICE: &'static str =
    "There are no secret keys in ~/.aws/awsmfa.yml. Use set command to register your first secret key.\n";

/// The secret key of the MFA device of one profile.
#[derive(Debug)]
pub struct Secret {
    pub profile: String,
    pub value: String,
}

impl Clone for Secret {
    fn clone(&self) -> (r: Self)
        ensures
            r.profile@ == self.profile@,
            r.value@ == self.value@,
    {
        Secret { profile: self.profile.clone(), value: self.value.clone() }
    }
}

/// The devices of a registry as pairs of profile and secret key.
pub open spec fn entries(v: Seq<Secret>) -> Seq<(Seq<char>, Seq<char>)> {
    Seq::new(v.len(), |i: int| (v[i].profile@, v[i].value@))
}

/// The secret key of the first device of `profile`.
pub open spec fn secret_of(devices: Seq<(Seq<char>, Seq<char>)>, profile: Seq<char>) -> Option<
    Seq<char>,
>
    decreases devices.len(),
{
    if devices.len() == 0 {
        None
    } else {
        match secret_of(devices.drop_last(), profile) {
            Some(v) => Some(v),
            None => if devices.last().0 == profile {
                Some(devices.last().1)
            } else {
                None
            },
        }
    }
}

/// The devices of other profiles than `profile`, in their order.
pub open spec fn without_device(
    devices: Seq<(Seq<char>, Seq<char>)>,
    profile: Seq<char>,
) -> Seq<(Seq<char>, Seq<char>)>
    decreases devices.len(),
{
    if devices.len() == 0 {
        devices
    } else if devices.last().0 == profile {
        without_device(devices.drop_last(), profile)
    } else {
        without_device(devices.drop_last(), profile).push(devices.last())
    }
}

/// What is shown for one device.
pub open spec fn device_text(device: (Seq<char>, Seq<char>)) -> Seq<char> {
    "[profile "@ + device.0 + "]\nsecret\t: "@ + device.1 + "\n\n"@
}

/// What is shown for the devices, one below the other.
pub open spec fn devices_text(devices: Seq<(Seq<char>, Seq<char>)>) -> Seq<char>
    decreases devices.len(),
{
    if devices.len() == 0 {
        Seq::empty()
    } else {
        devices_text(devices.drop_last()) + device_text(devices.last())
    }
}

/// What is shown for a registry.
pub open spec fn listing_of(devices: Seq<(Seq<char>, Seq<char>)>) -> Seq<char> {
    if devices.len() == 0 {
        EMPTY_NOTICE@
    } else {
        devices_text(devices)
    }
}

/// What a prefix of the devices gives for a profile, all of them give.
pub proof fn lemma_secret_prefix(
    devices: Seq<(Seq<char>, Seq<char>)>,
    profile: Seq<char>,
    i: int,
)
    requires
        0 <= i <= devices.len(),
        secret_of(devices.take(i), profile) is Some,
    ensures
        secret_of(devices, profile) == secret_of(devices.take(i), profile),
    decreases devices.len() - i,
{
    if i == devices.len() {
        assert(devices.take(i) =~= devices);
    } else {
        assert(devices.drop_last().take(i) =~= devices.take(i));
        lemma_secret_prefix(devices.drop_last(), profile, i);
    }
}

/// Removing a profile's devices leaves it without a secret key and every
/// other profile with the key that it had.
pub proof fn lemma_without_device(devices: Seq<(Seq<char>, Seq<char>)>, profile: Seq<char>)
    ensures
        secret_of(without_device(devices, profile), profile) is None,
        forall|other: Seq<char>|
            other != profile ==> #[trigger] secret_of(without_device(devices, profile), other)
                == secret_of(devices, other),
    decreases devices.len(),
{
    if devices.len() > 0 {
        let before = devices.drop_last();
        lemma_without_device(before, profile);
        let w = without_device(devices, profile);
        if devices.last().0 != profile {
            assert(w.drop_last() =~= without_device(before, profile));
            assert(w.last() == devices.last());
        }
        assert forall|other: Seq<char>| other != profile implies #[trigger] secret_of(w, other)
            == secret_of(devices, other) by {
            assert(secret_of(without_device(before, profile), other) == secret_of(before, other));
        }
    }
}

/// Registering a device. After a secret key was set for a profile, the
/// profile has that key and every other profile has the key that it had.
pub proof fn law_secret_after_set(
    devices: Seq<(Seq<char>, Seq<char>)>,
    profile: Seq<char>,
    value: Seq<char>,
)
    ensures
        secret_of(without_device(devices, profile).push((profile, value)), profile) == Some(value),
        forall|other: Seq<char>|
            other != profile ==> #[trigger] secret_of(
                without_device(devices, profile).push((profile, value)),
                other,
            ) == secret_of(devices, other),
{
    let w = without_device(devices, profile);
    lemma_without_device(devices, profile);
    assert(w.push((profile, value)).drop_last() =~= w);
    assert forall|other: Seq<char>| other != profile implies #[trigger] secret_of(
        w.push((profile, value)),
        other,
    ) == secret_of(devices, other) by {
        assert(secret_of(w, other) == secret_of(devices, other));
    }
}

/// The MFA devices that are registered, in the order of registration.
#[derive(Debug)]
pub struct MfaConfig {
    secrets: Vec<Secret>,
}

impl View for MfaConfig {
    type V = Seq<(Seq<char>, Seq<char>)>;

    closed spec fn view(&self) -> Seq<(Seq<char>, Seq<char>)> {
        entries(self.secrets@)
    }
}

impl MfaConfig {
    /// A registry without devices: what a missing registry file stands for.
    pub fn new() -> (r: Self)
        ensures
            r@ == Seq::<(Seq<char>, Seq<char>)>::empty(),
    {
        let r = MfaConfig { secrets: Vec::new() };
        proof {
            assert(r@ =~= Seq::empty());
        }
        r
    }

    /// The registry with the given devices.
    pub fn from_secrets(secrets: Vec<Secret>) -> (r: Self)
        ensures
            r@ == entries(secrets@),
    {
        MfaConfig { secrets }
    }

    /// The devices, in the order of registration.
    pub fn secrets(&self) -> (r: Vec<Secret>)
        ensures
            entries(r@) == self@,
    {
        let mut out: Vec<Secret> = Vec::new();
        let n: usize = self.secrets.len();
        let mut i: usize = 0;
        while i < n
            invariant
                i <= n,
                n == self.secrets@.len(),
                entries(out@) == self@.take(i as int),
            decreases n - i,
        {
            let ghost before = entries(out@);
            let s = self.secrets[i].clone();
            out.push(s);
            proof {
                assert(entries(out@) =~= before.push((s.profile@, s.value@)));
                assert(self@.take(i + 1) =~= self@.take(i as int).push(self@[i as int]));
            }
            i += 1;
        }
        proof {
            assert(self@.take(n as int) =~= self@);
        }
        out
    }

    /// The number of devices.
    pub fn len(&self) -> (r: usize)
        ensures
            r == self@.len(),
    {
        self.secrets.len()
    }

    /// The registry with `value` as the secret key of `profile`: the devices
    /// that the profile had are gone, and the new one stands last.
    pub fn set(self, profile: &str, value: &str) -> (r: Self)
        ensures
            r@ == without_device(self@, profile@).push((profile@, value@)),
    {
        let mut secrets = self.remove(profile).secrets;
        let ghost before = entries(secrets@);
        secrets.push(Secret { profile: profile.to_owned(), value: value.to_owned() });
        let r = MfaConfig { secrets };
        proof {
            assert(r@ =~= before.push((profile@, value@)));
        }
        r
    }

    /// The registry without the devices of `profile`.
    pub fn remove(self, profile: &str) -> (r: Self)
        ensures
            r@ == without_device(self@, profile@),
    {
        let mut out: Vec<Secret> = Vec::new();
        let n: usize = self.secrets.len();
        let mut i: usize = 0;
        while i < n
            invariant
                i <= n,
                n == self.secrets@.len(),
                entries(out@) == without_device(self@.take(i as int), profile@),
            decreases n - i,
        {
            let ghost before = entries(out@);
            proof {
                assert(self@.take(i + 1).drop_last() =~= self@.take(i as int));
                assert(self@.take(i + 1).last() == self@[i as int]);
            }
            if !str_eq(self.secrets[i].profile.as_str(), profile) {
                let s = self.secrets[i].clone();
                out.push(s);
                proof {
                    assert(entries(out@) =~= before.push((s.profile@, s.value@)));
                }
            }
            i += 1;
        }
        proof {
            assert(self@.take(n as int) =~= self@);
        }
        MfaConfig { secrets: out }
    }

    /// The secret key of the first device of `profile`. Fails where the
    /// profile has no device.
    pub fn get_secret(&self, profile: &str) -> (r: Result<String, ConfError>)
        ensures
            match secret_of(self@, profile@) {
                Some(v) => r is Ok && r->Ok_0@ == v,
                None => r is Err && r->Err_0@ == (ConfErrorView::NotFound {
                    profile: profile@,
                    key: None,
                    file: Some(REGISTRY_FILENAME@),
                }),
            },
    {
        let n: usize = self.secrets.len();
        let mut i: usize = 0;
        while i < n
            invariant
                i <= n,
                n == self.secrets@.len(),
                secret_of(self@.take(i as int), profile@) is None,
            decreases n - i,
        {
            proof {
                assert(self@.take(i + 1).drop_last() =~= self@.take(i as int));
                assert(self@.take(i + 1).last() == self@[i as int]);
            }
            if str_eq(self.secrets[i].profile.as_str(), profile) {
                proof {
                    lemma_secret_prefix(self@, profile@, i + 1);
                }
                return Ok(self.secrets[i].value.clone());
            }
            i += 1;
        }
        proof {
            assert(self@.take(n as int) =~= self@);
        }
        Err(
            ConfError::NotFound {
                profile: profile.to_owned(),
                key: None,
                file: Some(REGISTRY_FILENAME.to_owned()),
            },
        )
    }

    /// What is shown for the registry: for each device its profile in a
    /// header and its secret key below, or a notice where there is none.
    pub fn listing(&self) -> (r: String)
        ensures
            r@ == listing_of(self@),
    {
        let n: usize = self.secrets.len();
        if n == 0 {
            return EMPTY_NOTICE.to_owned();
        }
        let mut out = String::new();
        let mut i: usize = 0;
        while i < n
            invariant
                i <= n,
                n == self.secrets@.len(),
                out@ == devices_text(self@.take(i as int)),
            decreases n - i,
        {
            proof {
                assert(self@.take(i + 1).drop_last() =~= self@.take(i as int));
                assert(self@.take(i + 1).last() == self@[i as int]);
            }
            let ghost before = out@;
            out.append("[profile ");
            out.append(self.secrets[i].profile.as_str());
            out.append("]\nsecret\t: ");
            out.append(self.secrets[i].value.as_str());
            out.append("\n\n");
            proof {
                assert(out@ =~= before + device_text(self@[i as int]));
            }
            i += 1;
        }
        proof {
            assert(self@.take(n as int) =~= self@);
        }
        out
    }
}

} // verus!
