//! Memory mappings.

use drm_tyr::error::EINVAL;
use drm_tyr::iosys_map::{IoSysMapRef, MapAccess, MapAddress, RawIoSysMap, Width, Word};

#[test]
fn mapping_knows_where_it_is() {
    let io = RawIoSysMap::<16>::from_raw(MapAddress::Iomem(0x1000));
    assert!(io.is_iomem());
    assert_eq!(io.addr(), 0x1000);
    let system = RawIoSysMap::<16>::from_raw(MapAddress::System(0x2000));
    assert!(!system.is_iomem());
    assert_eq!(system.addr(), 0x2000);
    assert_eq!(*system.clone().as_raw(), MapAddress::System(0x2000));
}

#[test]
fn raw_mapping_can_be_changed() {
    let mut map = RawIoSysMap::<0>::from_raw(MapAddress::System(0x2000));
    *map.as_raw_mut() = MapAddress::Iomem(0x3000);
    assert!(map.is_iomem());
    assert_eq!(map.addr(), 0x3000);
}

#[test]
fn mapping_that_is_too_small_is_refused() {
    let map = RawIoSysMap::<16>::from_raw(MapAddress::System(0x2000));
    let res = IoSysMapRef::new(map.clone(), 15);
    assert_eq!(res.err().map(|e| e.to_errno()), Some(EINVAL));
    let exact = IoSysMapRef::new(map.clone(), 16).ok().unwrap();
    assert_eq!(exact.maxsize(), 16);
    let larger = IoSysMapRef::new(map, 4096).ok().unwrap();
    assert_eq!(larger.maxsize(), 4096);
    assert_eq!(IoSysMapRef::<16>::min_size(), 16);
    assert_eq!(larger.clone().addr(), 0x2000);
    assert!(!larger.is_iomem());
}

#[test]
fn accesses_go_by_offset() {
    let map = RawIoSysMap::<16>::from_raw(MapAddress::Iomem(0x1000));
    assert_eq!(
        map.io_read(0x1004, Width::U32),
        MapAccess::Read { map: MapAddress::Iomem(0x1000), offset: 4, width: Width::U32 }
    );
    let map_ref = IoSysMapRef::new(map, 16).ok().unwrap();
    assert_eq!(
        map_ref.io_write(Word::U8(7), 0x1000),
        MapAccess::Write { map: MapAddress::Iomem(0x1000), offset: 0, value: Word::U8(7) }
    );
    assert_eq!(
        map_ref.io_read(0x1008, Width::U64),
        MapAccess::Read { map: MapAddress::Iomem(0x1000), offset: 8, width: Width::U64 }
    );
}
