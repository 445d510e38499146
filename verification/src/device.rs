//! The device identity handed to the engine at initialization: a machine
//! identifier resolved through a fallback chain, composed with the
//! operator's device name. The caller supplies what each source answered;
//! the choice and the composition are pinned down here.

use vstd::prelude::*;

verus! {

/// The machine identifier to use: the reported one when it is non-empty,
/// else the firmware product identifier when that source could be read at
/// all, else the freshly drawn random identifier.
pub open spec fn spec_resolve_machine_uid(
    reported: Option<Seq<char>>,
    product_uuid: Option<Seq<char>>,
    random_uuid: Seq<char>,
) -> Seq<char> {
    match reported {
        Some(r) if r.len() > 0 => r,
        _ => match product_uuid {
            Some(p) => p,
            None => random_uuid,
        },
    }
}

/// Chooses the machine identifier. `reported` is `None` where the machine
/// identifier lookup failed, `product_uuid` is `None` where the firmware
/// identifier could not be read.
pub fn resolve_machine_uid(
    reported: Option<String>,
    product_uuid: Option<String>,
    random_uuid: String,
) -> (r: String)
    ensures
        r@ == spec_resolve_machine_uid(
            match reported {
                Some(ref s) => Some(s@),
                None => None,
            },
            match product_uuid {
                Some(ref s) => Some(s@),
                None => None,
            },
            random_uuid@,
        ),
{
    match reported {
        Some(s) => {
            if !s.as_str().is_empty() {
                return s;
            }
            match product_uuid {
                Some(p) => p,
                None => random_uuid,
            }
        },
        None => match product_uuid {
            Some(p) => p,
            None => random_uuid,
        },
    }
}

/// The device identity reported to the engine: empty when the operator
/// named no device, else the machine identifier and the device name joined
/// by a slash.
pub open spec fn spec_compose_device_id(machine_uid: Seq<char>, device_id: Seq<char>) -> Seq<
    char,
> {
    if device_id.len() == 0 {
        Seq::empty()
    } else {
        machine_uid + seq!['/'] + device_id
    }
}

/// Composes the device identity.
pub fn compose_device_id(machine_uid: &String, device_id: &String) -> (r: String)
    ensures
        r@ == spec_compose_device_id(machine_uid@, device_id@),
{
    if device_id.as_str().is_empty() {
        String::new()
    } else {
        let mut out = machine_uid.clone();
        crate::textenc::push_char(&mut out, '/');
        out.append(device_id.as_str());
        proof {
            assert(out@ =~= spec_compose_device_id(machine_uid@, device_id@));
        }
        out
    }
}

} // verus!
