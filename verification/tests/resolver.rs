use zmk_battery_center::resolver::{
    decode_label, find_user_description, resolve, resolve_label, CharacteristicContext,
    GattCharacteristic, GattDescriptor, GattService, BATTERY_LEVEL_UUID, BATTERY_SERVICE_UUID,
    USER_DESCRIPTION_UUID,
};

const OTHER_UUID: u128 = 0x0000180A_0000_1000_8000_00805F9B34FB;

fn description(text: &str) -> GattDescriptor {
    GattDescriptor { uuid: USER_DESCRIPTION_UUID, value: Ok(text.as_bytes().to_vec()) }
}

fn level(descriptors: Vec<GattDescriptor>) -> GattCharacteristic {
    GattCharacteristic { uuid: BATTERY_LEVEL_UUID, descriptors: Ok(descriptors) }
}

fn battery(characteristics: Vec<GattCharacteristic>) -> GattService {
    GattService { uuid: BATTERY_SERVICE_UUID, characteristics: Ok(characteristics) }
}

fn context(service: usize, characteristic: usize, label: Option<&str>) -> CharacteristicContext {
    CharacteristicContext { service, characteristic, label: label.map(|text| text.to_string()) }
}

#[test]
fn standard_uuids() {
    assert_eq!(BATTERY_SERVICE_UUID, 0x0000180F_0000_1000_8000_00805F9B34FB);
    assert_eq!(BATTERY_LEVEL_UUID, 0x00002A19_0000_1000_8000_00805F9B34FB);
    assert_eq!(USER_DESCRIPTION_UUID, 0x00002901_0000_1000_8000_00805F9B34FB);
}

#[test]
fn label_is_decoded_from_utf8() {
    assert_eq!(decode_label(&[82, 105, 103, 104, 116]), Some("Right".to_string()));
    assert_eq!(decode_label("左".as_bytes()), Some("左".to_string()));
    assert_eq!(decode_label(&[]), Some(String::new()));
}

#[test]
fn label_that_is_no_utf8_is_absent() {
    assert_eq!(decode_label(&[0xff, 0xfe]), None);
    assert_eq!(decode_label(&[0xc3]), None);
}

#[test]
fn first_user_description_is_found() {
    let descriptors = vec![
        GattDescriptor { uuid: OTHER_UUID, value: Ok(vec![1]) },
        description("Left"),
        description("Other"),
    ];
    assert_eq!(find_user_description(&descriptors), Some(1));
    assert_eq!(find_user_description(&vec![]), None);
    assert_eq!(resolve_label(&Ok(descriptors)), Some("Left".to_string()));
}

#[test]
fn label_is_absent_when_it_cannot_be_read() {
    let unreadable = vec![GattDescriptor {
        uuid: USER_DESCRIPTION_UUID,
        value: Err("read failed".to_string()),
    }];
    assert_eq!(resolve_label(&Ok(unreadable)), None);
    assert_eq!(resolve_label(&Err("no descriptors".to_string())), None);
    assert_eq!(resolve_label(&Ok(vec![])), None);
    let garbled = vec![GattDescriptor { uuid: USER_DESCRIPTION_UUID, value: Ok(vec![0xff]) }];
    assert_eq!(resolve_label(&Ok(garbled)), None);
}

#[test]
fn resolve_lists_battery_levels_in_order() {
    let services = Ok(vec![
        GattService { uuid: OTHER_UUID, characteristics: Ok(vec![level(vec![description("No")])]) },
        battery(vec![
            GattCharacteristic { uuid: OTHER_UUID, descriptors: Ok(vec![]) },
            level(vec![description("Left")]),
            level(vec![]),
        ]),
        battery(vec![level(vec![description("Right")])]),
    ]);
    assert_eq!(
        resolve(&services),
        Ok(vec![
            context(1, 1, Some("Left")),
            context(1, 2, None),
            context(2, 0, Some("Right")),
        ])
    );
}

#[test]
fn resolve_of_a_device_without_battery_level_is_empty() {
    assert_eq!(resolve(&Ok(vec![])), Ok(vec![]));
    assert_eq!(resolve(&Ok(vec![battery(vec![])])), Ok(vec![]));
    let other = GattService { uuid: OTHER_UUID, characteristics: Ok(vec![]) };
    assert_eq!(resolve(&Ok(vec![other])), Ok(vec![]));
}

#[test]
fn resolve_fails_when_services_cannot_be_listed() {
    assert_eq!(resolve(&Err("no services".to_string())), Err("no services".to_string()));
}

#[test]
fn resolve_fails_when_characteristics_of_a_battery_service_cannot_be_listed() {
    let services = Ok(vec![
        battery(vec![level(vec![])]),
        GattService { uuid: BATTERY_SERVICE_UUID, characteristics: Err("first".to_string()) },
        GattService { uuid: BATTERY_SERVICE_UUID, characteristics: Err("second".to_string()) },
    ]);
    assert_eq!(resolve(&services), Err("first".to_string()));
}

#[test]
fn resolve_passes_over_failures_of_other_services() {
    let services = Ok(vec![
        GattService { uuid: OTHER_UUID, characteristics: Err("not asked".to_string()) },
        battery(vec![level(vec![description("Only")])]),
    ]);
    assert_eq!(resolve(&services), Ok(vec![context(1, 0, Some("Only"))]));
}

#[test]
fn resolve_keeps_a_characteristic_whose_descriptors_fail() {
    let services = Ok(vec![battery(vec![GattCharacteristic {
        uuid: BATTERY_LEVEL_UUID,
        descriptors: Err("no descriptors".to_string()),
    }])]);
    assert_eq!(resolve(&services), Ok(vec![context(0, 0, None)]));
}
