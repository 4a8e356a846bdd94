//! The characteristic resolver: finds the Battery Level characteristics of a
//! device, and the label of each, in what the adapter listed of its services.

use vstd::prelude::*;
use vstd::string::StringSliceAdditionalSpecFns;
use vstd::utf8::{decode_utf8, encode_utf8_decode_utf8, valid_utf8};

verus! {

/// The Battery Service.
pub const BATTERY_SERVICE_UUID: u128 = 0x0000180F_0000_1000_8000_00805F9B34FB;

/// The Battery Level characteristic.
pub const BATTERY_LEVEL_UUID: u128 = 0x00002A19_0000_1000_8000_00805F9B34FB;

/// The Characteristic User Description descriptor.
pub const USER_DESCRIPTION_UUID: u128 = 0x00002901_0000_1000_8000_00805F9B34FB;

/// A descriptor as the adapter listed it: its UUID and what came of reading
/// it.
#[derive(Debug, PartialEq, Eq)]
pub struct GattDescriptor {
    pub uuid: u128,
    pub value: Result<Vec<u8>, String>,
}

/// A characteristic as the adapter listed it: its UUID and what came of
/// listing its descriptors.
#[derive(Debug, PartialEq, Eq)]
pub struct GattCharacteristic {
    pub uuid: u128,
    pub descriptors: Result<Vec<GattDescriptor>, String>,
}

/// A service as the adapter listed it: its UUID and what came of listing its
/// characteristics.
#[derive(Debug, PartialEq, Eq)]
pub struct GattService {
    pub uuid: u128,
    pub characteristics: Result<Vec<GattCharacteristic>, String>,
}

/// One resolved Battery Level characteristic: where it stands among the
/// services and characteristics of its device, and its label.
#[derive(Clone, Debug, PartialEq, Eq)]
pub struct CharacteristicContext {
    /// The position of its service among the services of the device.
    pub service: usize,
    /// Its position among the characteristics of that service.
    pub characteristic: usize,
    /// Its user description, absent when it has none that can be read as
    /// text.
    pub label: Option<String>,
}

/// The mathematical content of a [`CharacteristicContext`].
pub struct ContextModel {
    pub service: usize,
    pub characteristic: usize,
    pub label: Option<Seq<char>>,
}

impl View for CharacteristicContext {
    type V = ContextModel;

    open spec fn view(&self) -> ContextModel {
        ContextModel {
            service: self.service,
            characteristic: self.characteristic,
            label: match self.label {
                Some(text) => Some(text@),
                None => None,
            },
        }
    }
}

/// The contexts of `contexts`, each by its content.
pub open spec fn models(contexts: Seq<CharacteristicContext>) -> Seq<ContextModel> {
    contexts.map_values(|c: CharacteristicContext| c@)
}

/// The text that `bytes` encode in UTF-8, if they do.
pub open spec fn text_of(bytes: Seq<u8>) -> Option<Seq<char>> {
    if valid_utf8(bytes) {
        Some(decode_utf8(bytes))
    } else {
        None
    }
}

/// The position of the first user description among `descriptors`.
pub open spec fn user_description(descriptors: Seq<GattDescriptor>) -> Option<int>
    decreases descriptors.len(),
{
    if descriptors.len() == 0 {
        None
    } else {
        match user_description(descriptors.drop_last()) {
            Some(k) => Some(k),
            None => if descriptors.last().uuid == USER_DESCRIPTION_UUID {
                Some(descriptors.len() - 1)
            } else {
                None
            },
        }
    }
}

/// The label of a characteristic with these descriptors: the text of its
/// first user description, absent when the descriptors could not be listed,
/// none of them is a user description, it could not be read or its value is
/// no UTF-8.
pub open spec fn label_of(descriptors: Result<Vec<GattDescriptor>, String>) -> Option<Seq<char>> {
    match descriptors {
        Err(_) => None,
        Ok(listed) => match user_description(listed@) {
            None => None,
            Some(k) => match listed@[k].value {
                Err(_) => None,
                Ok(bytes) => text_of(bytes@),
            },
        },
    }
}

/// The contexts of the Battery Level characteristics among
/// `characteristics`, the characteristics of the service at `service`, in
/// their order.
pub open spec fn level_contexts(
    service: usize,
    characteristics: Seq<GattCharacteristic>,
) -> Seq<ContextModel>
    decreases characteristics.len(),
{
    if characteristics.len() == 0 {
        Seq::empty()
    } else {
        let front = level_contexts(service, characteristics.drop_last());
        let last = characteristics.last();
        if last.uuid == BATTERY_LEVEL_UUID {
            front.push(
                ContextModel {
                    service,
                    characteristic: (characteristics.len() - 1) as usize,
                    label: label_of(last.descriptors),
                },
            )
        } else {
            front
        }
    }
}

/// The contexts of all Battery Level characteristics under the Battery
/// Services among `services`, in their order, or the error of the first
/// Battery Service whose characteristics could not be listed.
pub open spec fn resolved(services: Seq<GattService>) -> Result<Seq<ContextModel>, String>
    decreases services.len(),
{
    if services.len() == 0 {
        Ok(Seq::empty())
    } else {
        let last = services.last();
        match resolved(services.drop_last()) {
            Err(error) => Err(error),
            Ok(front) => if last.uuid != BATTERY_SERVICE_UUID {
                Ok(front)
            } else {
                match last.characteristics {
                    Err(error) => Err(error),
                    Ok(listed) => Ok(front + level_contexts((services.len() - 1) as usize, listed@)),
                }
            },
        }
    }
}

/// What resolving gives for what the adapter listed of the services of a
/// device.
pub open spec fn resolution(services: Result<Vec<GattService>, String>) -> Result<
    Seq<ContextModel>,
    String,
> {
    match services {
        Err(error) => Err(error),
        Ok(listed) => resolved(listed@),
    }
}

/// Reads `bytes` as UTF-8 text with `std::str::from_utf8`: the text is
/// there exactly when the bytes are valid UTF-8, and it is then made of
/// those bytes.
#[verifier::external_body]
fn str_from_utf8(bytes: &[u8]) -> (text: Option<&str>)
    ensures
        text is Some <==> valid_utf8(bytes@),
        text is Some ==> text->Some_0.spec_bytes() == bytes@,
{
    std::str::from_utf8(bytes).ok()
}

/// The label that a descriptor value gives: its text, when it is UTF-8.
pub fn decode_label(bytes: &[u8]) -> (label: Option<String>)
    ensures
        match label {
            Some(text) => text_of(bytes@) == Some(text@),
            None => text_of(bytes@) is None,
        },
{
    match str_from_utf8(bytes) {
        Some(text) => {
            proof {
                encode_utf8_decode_utf8(text@);
            }
            Some(text.to_owned())
        },
        None => None,
    }
}

/// The position of the first user description among `descriptors`.
pub fn find_user_description(descriptors: &Vec<GattDescriptor>) -> (found: Option<usize>)
    ensures
        match found {
            Some(k) => k < descriptors.len() && user_description(descriptors@) == Some(k as int),
            None => user_description(descriptors@) is None,
        },
{
    let mut i: usize = 0;
    while i < descriptors.len()
        invariant
            i <= descriptors.len(),
            user_description(descriptors@.take(i as int)) is None,
        decreases descriptors.len() - i,
    {
        proof {
            assert(descriptors@.take(i + 1).drop_last() == descriptors@.take(i as int));
        }
        if descriptors[i].uuid == USER_DESCRIPTION_UUID {
            proof {
                lemma_user_description_stays(descriptors@, i + 1);
            }
            return Some(i);
        }
        i += 1;
    }
    proof {
        assert(descriptors@.take(i as int) == descriptors@);
    }
    None
}

/// A user description that is the first of a front part of the descriptors
/// is the first of them all.
pub proof fn lemma_user_description_stays(descriptors: Seq<GattDescriptor>, front: int)
    requires
        0 <= front <= descriptors.len(),
        user_description(descriptors.take(front)) is Some,
    ensures
        user_description(descriptors) == user_description(descriptors.take(front)),
    decreases descriptors.len() - front,
{
    if front < descriptors.len() {
        assert(descriptors.take(front + 1).drop_last() == descriptors.take(front));
        lemma_user_description_stays(descriptors, front + 1);
    } else {
        assert(descriptors.take(front) == descriptors);
    }
}

/// The label of a characteristic from what the adapter listed of its
/// descriptors.
pub fn resolve_label(descriptors: &Result<Vec<GattDescriptor>, String>) -> (label: Option<String>)
    ensures
        match label {
            Some(text) => label_of(*descriptors) == Some(text@),
            None => label_of(*descriptors) is None,
        },
{
    match descriptors {
        Err(_) => None,
        Ok(listed) => match find_user_description(listed) {
            None => None,
            Some(k) => match &listed[k].value {
                Err(_) => None,
                Ok(bytes) => decode_label(bytes.as_slice()),
            },
        },
    }
}

/// Resolves the Battery Level characteristics of a device from what the
/// adapter listed of its services. A device without any gives an empty list;
/// only a failed listing of the services, or of the characteristics of a
/// Battery Service, is an error.
pub fn resolve(services: &Result<Vec<GattService>, String>) -> (contexts: Result<
    Vec<CharacteristicContext>,
    String,
>)
    ensures
        match contexts {
            Ok(found) => resolution(*services) == Ok::<Seq<ContextModel>, String>(models(found@)),
            Err(error) => resolution(*services) == Err::<Seq<ContextModel>, String>(error),
        },
{
    let listed = match services {
        Err(error) => {
            return Err(error.clone());
        },
        Ok(listed) => listed,
    };
    let mut found: Vec<CharacteristicContext> = Vec::new();
    let mut i: usize = 0;
    proof {
        assert(models(found@) =~= Seq::<ContextModel>::empty());
    }
    while i < listed.len()
        invariant
            i <= listed.len(),
            *services == Ok::<Vec<GattService>, String>(*listed),
            resolved(listed@.take(i as int)) == Ok::<Seq<ContextModel>, String>(models(found@)),
        decreases listed.len() - i,
    {
        proof {
            assert(listed@.take(i + 1).drop_last() == listed@.take(i as int));
            assert(listed@.take(i + 1).last() == listed@[i as int]);
        }
        if listed[i].uuid == BATTERY_SERVICE_UUID {
            match &listed[i].characteristics {
                Err(error) => {
                    proof {
                        assert(resolved(listed@.take(i + 1)) == Err::<Seq<ContextModel>, String>(
                            *error,
                        ));
                        lemma_resolved_error_stays(listed@, i + 1);
                    }
                    return Err(error.clone());
                },
                Ok(characteristics) => {
                    let ghost before = models(found@);
                    let mut j: usize = 0;
                    proof {
                        assert(before + level_contexts(i, characteristics@.take(0)) =~= before);
                    }
                    while j < characteristics.len()
                        invariant
                            j <= characteristics.len(),
                            models(found@) == before + level_contexts(
                                i,
                                characteristics@.take(j as int),
                            ),
                        decreases characteristics.len() - j,
                    {
                        proof {
                            assert(characteristics@.take(j + 1).drop_last()
                                == characteristics@.take(j as int));
                            assert(characteristics@.take(j + 1).last()
                                == characteristics@[j as int]);
                        }
                        if characteristics[j].uuid == BATTERY_LEVEL_UUID {
                            let label = resolve_label(&characteristics[j].descriptors);
                            let context = CharacteristicContext {
                                service: i,
                                characteristic: j,
                                label,
                            };
                            let ghost earlier = found@;
                            found.push(context);
                            proof {
                                assert(models(found@) =~= models(earlier).push(context@));
                                assert(before + level_contexts(i, characteristics@.take(j + 1))
                                    =~= (before + level_contexts(
                                    i,
                                    characteristics@.take(j as int),
                                )).push(context@));
                            }
                        }
                        j += 1;
                    }
                    proof {
                        assert(characteristics@.take(j as int) == characteristics@);
                    }
                },
            }
        }
        i += 1;
    }
    proof {
        assert(listed@.take(i as int) == listed@);
    }
    Ok(found)
}

/// An error found in a front part of the services is the error of them all.
pub proof fn lemma_resolved_error_stays(services: Seq<GattService>, front: int)
    requires
        0 <= front <= services.len(),
        resolved(services.take(front)) is Err,
    ensures
        resolved(services) == resolved(services.take(front)),
    decreases services.len() - front,
{
    if front < services.len() {
        assert(services.take(front + 1).drop_last() == services.take(front));
        lemma_resolved_error_stays(services, front + 1);
    } else {
        assert(services.take(front) == services);
    }
}

/// Resolving fails only where a lookup failed: exactly when the
/// characteristics of some Battery Service could not be listed. Services
/// that are no Battery Service never make it fail.
pub proof fn lemma_resolve_fails_only_on_lookup(services: Seq<GattService>)
    ensures
        resolved(services) is Err <==> exists|i: int|
            0 <= i < services.len() && (#[trigger] services[i]).uuid == BATTERY_SERVICE_UUID
                && services[i].characteristics is Err,
    decreases services.len(),
{
    if services.len() > 0 {
        let front = services.drop_last();
        lemma_resolve_fails_only_on_lookup(front);
        if resolved(front) is Err {
            let i = choose|i: int|
                0 <= i < front.len() && (#[trigger] front[i]).uuid == BATTERY_SERVICE_UUID
                    && front[i].characteristics is Err;
            assert(services[i] == front[i]);
        } else if resolved(services) is Err {
            assert(services[services.len() - 1] == services.last());
        } else {
            assert forall|i: int| 0 <= i < services.len() implies !((#[trigger] services[i]).uuid
                == BATTERY_SERVICE_UUID && services[i].characteristics is Err) by {
                if i < front.len() {
                    assert(services[i] == front[i]);
                }
            }
        }
    }
}

/// Every resolved context stands for a Battery Level characteristic of the
/// service it names, and carries its label.
pub proof fn lemma_level_contexts(service: usize, characteristics: Seq<GattCharacteristic>)
    requires
        characteristics.len() <= usize::MAX,
    ensures
        forall|k: int|
            0 <= k < level_contexts(service, characteristics).len() ==> {
                let context = #[trigger] level_contexts(service, characteristics)[k];
                &&& context.service == service
                &&& context.characteristic < characteristics.len()
                &&& characteristics[context.characteristic as int].uuid == BATTERY_LEVEL_UUID
                &&& context.label == label_of(
                    characteristics[context.characteristic as int].descriptors,
                )
            },
        (forall|j: int|
            0 <= j < characteristics.len() ==> (#[trigger] characteristics[j]).uuid
                != BATTERY_LEVEL_UUID) ==> level_contexts(service, characteristics).len() == 0,
    decreases characteristics.len(),
{
    if characteristics.len() > 0 {
        let front = characteristics.drop_last();
        lemma_level_contexts(service, front);
        assert forall|j: int| 0 <= j < front.len() implies front[j] == characteristics[j] by {}
        if forall|j: int|
            0 <= j < characteristics.len() ==> (#[trigger] characteristics[j]).uuid
                != BATTERY_LEVEL_UUID {
            assert forall|j: int| 0 <= j < front.len() implies (#[trigger] front[j]).uuid
                != BATTERY_LEVEL_UUID by {
                assert(front[j] == characteristics[j]);
            }
            assert(characteristics[characteristics.len() - 1].uuid != BATTERY_LEVEL_UUID);
        }
    }
}

/// Two listings of services that agree on what resolving looks at: the
/// UUID of each service and the characteristics of each Battery Service.
pub open spec fn same_battery_services(a: Seq<GattService>, b: Seq<GattService>) -> bool {
    &&& a.len() == b.len()
    &&& forall|i: int|
        0 <= i < a.len() ==> (#[trigger] a[i]).uuid == b[i].uuid && (a[i].uuid
            == BATTERY_SERVICE_UUID ==> a[i].characteristics == b[i].characteristics)
}

/// Two listings of characteristics that agree on what resolving looks at:
/// the UUID of each characteristic and the label of each Battery Level
/// characteristic.
pub open spec fn same_battery_levels(
    a: Seq<GattCharacteristic>,
    b: Seq<GattCharacteristic>,
) -> bool {
    &&& a.len() == b.len()
    &&& forall|i: int|
        0 <= i < a.len() ==> (#[trigger] a[i]).uuid == b[i].uuid && (a[i].uuid
            == BATTERY_LEVEL_UUID ==> label_of(a[i].descriptors) == label_of(b[i].descriptors))
}

/// Resolving looks at nothing under a service that is no Battery Service:
/// what is listed there, and whether listing it failed, changes nothing.
pub proof fn lemma_resolve_ignores_other_services(a: Seq<GattService>, b: Seq<GattService>)
    requires
        same_battery_services(a, b),
    ensures
        resolved(a) == resolved(b),
    decreases a.len(),
{
    if a.len() > 0 {
        assert forall|i: int| 0 <= i < a.len() - 1 implies (#[trigger] a.drop_last()[i]).uuid
            == b.drop_last()[i].uuid && (a.drop_last()[i].uuid == BATTERY_SERVICE_UUID
            ==> a.drop_last()[i].characteristics == b.drop_last()[i].characteristics) by {
            assert(a.drop_last()[i] == a[i]);
            assert(b.drop_last()[i] == b[i]);
        }
        lemma_resolve_ignores_other_services(a.drop_last(), b.drop_last());
        assert(a.last() == a[a.len() - 1]);
        assert(b.last() == b[a.len() - 1]);
    }
}

/// Resolving looks at the descriptors of Battery Level characteristics
/// only, and only at the label they give.
pub proof fn lemma_resolve_ignores_other_characteristics(
    service: usize,
    a: Seq<GattCharacteristic>,
    b: Seq<GattCharacteristic>,
)
    requires
        same_battery_levels(a, b),
    ensures
        level_contexts(service, a) == level_contexts(service, b),
    decreases a.len(),
{
    if a.len() > 0 {
        assert forall|i: int| 0 <= i < a.len() - 1 implies (#[trigger] a.drop_last()[i]).uuid
            == b.drop_last()[i].uuid && (a.drop_last()[i].uuid == BATTERY_LEVEL_UUID ==> label_of(
            a.drop_last()[i].descriptors,
        ) == label_of(b.drop_last()[i].descriptors)) by {
            assert(a.drop_last()[i] == a[i]);
            assert(b.drop_last()[i] == b[i]);
        }
        lemma_resolve_ignores_other_characteristics(service, a.drop_last(), b.drop_last());
        assert(a.last() == a[a.len() - 1]);
        assert(b.last() == b[a.len() - 1]);
    }
}

} // verus!
