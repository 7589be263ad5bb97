use void_runtime::ecs::{
    api_version_compatible, api_version_major, api_version_minor, api_version_patch,
    make_api_version, AssetId, ComponentBuilder, ComponentData, EntityId, FfiOption,
    ForEachResult, InvalidForEachResult, QueryComponentsRef, QueryComponentsRefMut, ENGINE_VERSION,
};

#[test]
fn engine_version_is_0_0_20() {
    assert_eq!(ENGINE_VERSION, make_api_version(0, 0, 20));
}

#[test]
fn api_version_packs_and_unpacks() {
    let v = make_api_version(3, 17, 1234);
    assert_eq!(v, (3 << 25) | (17 << 15) | 1234);
    assert_eq!(api_version_major(v), 3);
    assert_eq!(api_version_minor(v), 17);
    assert_eq!(api_version_patch(v), 1234);
}

#[test]
fn api_version_extremes() {
    let v = make_api_version(127, 1023, 32767);
    assert_eq!(v, u32::MAX);
    assert_eq!(api_version_major(u32::MAX), 127);
    assert_eq!(api_version_minor(u32::MAX), 1023);
    assert_eq!(api_version_patch(u32::MAX), 32767);
}

#[test]
fn api_version_compatibility_needs_an_exact_match() {
    assert!(api_version_compatible(ENGINE_VERSION));
    assert!(!api_version_compatible(make_api_version(0, 0, 21)));
    assert!(!api_version_compatible(make_api_version(0, 1, 20)));
    assert!(!api_version_compatible(make_api_version(1, 0, 20)));
}

#[test]
fn asset_id_from_u32() {
    assert_eq!(AssetId::from(5), AssetId(5));
}

#[test]
fn ffi_option_holds_an_option() {
    let mut o = FfiOption::new(Some(3u32));
    assert_eq!(o.borrow(), Some(&3));
    assert_eq!(o.unwrap_or(9), 3);
    assert_eq!(o.unwrap(), 3);
    o.set(None);
    assert_eq!(o.borrow(), None);
    assert_eq!(o.unwrap_or(9), 9);
}

#[test]
fn entity_id_is_never_zero() {
    assert!(EntityId::from_u64(0).is_none());
    assert_eq!(EntityId::from_u64(4).unwrap().get(), 4);
    assert_eq!(EntityId::new(8), EntityId::new(8));
}

#[test]
fn component_data_and_builder() {
    let a = ComponentData::new(3, vec![1, 2]);
    assert_eq!(a.component_id(), Some(3));
    assert_eq!(a.component_data(), &[1, 2]);
    let mut builder = ComponentBuilder::from_array([a]);
    builder.add_components([ComponentData::new(4, vec![]), ComponentData::new(5, vec![9])]);
    assert_eq!(builder.len(), 3);
    assert_eq!(builder.get(0).component_id(), Some(3));
    assert_eq!(builder.get(2).component_id(), Some(5));
    assert_eq!(builder.get(2).component_data(), &[9]);
}

#[test]
fn query_components_unpack() {
    let r = QueryComponentsRef::new((1u8, 2u16));
    assert_eq!(*r.unpack(), (1, 2));
    let mut m = QueryComponentsRefMut::new(5u32);
    *m.unpack() = 6;
    assert_eq!(*m.unpack(), 6);
}

#[test]
fn for_each_result_codes() {
    assert_eq!(ForEachResult::try_from(0), Ok(ForEachResult::Continue));
    assert_eq!(ForEachResult::try_from(1), Ok(ForEachResult::Break));
    assert_eq!(ForEachResult::try_from(2), Ok(ForEachResult::Error));
    assert_eq!(ForEachResult::try_from(3), Err(InvalidForEachResult(3)));
    assert_eq!(ForEachResult::try_from(-1), Err(InvalidForEachResult(-1)));
}
