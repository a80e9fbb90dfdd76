use arendur::bxdf::fresnel::Noop;
use arendur::bxdf::{BxdfType, BXDF_DIFFUSE, BXDF_REFLECTION, BXDF_SPECULAR};
use arendur::component::bvh::BVHStrategy;
use arendur::lighting::{LightFlag, LIGHT_AREA, LIGHT_DDIR, LIGHT_DPOS, LIGHT_INFINITE};

#[test]
fn light_flag_is_delta() {
    assert!(LightFlag::from_bits_truncate(LIGHT_DPOS).is_delta());
    assert!(LightFlag::from_bits_truncate(LIGHT_DDIR).is_delta());
    assert!(LightFlag::from_bits_truncate(LIGHT_DDIR | LIGHT_INFINITE).is_delta());
    assert!(!LightFlag::from_bits_truncate(LIGHT_AREA).is_delta());
    assert!(!LightFlag::from_bits_truncate(LIGHT_INFINITE).is_delta());
    assert!(!LightFlag::from_bits_truncate(0x30).is_delta());
}

#[test]
fn light_flag_set_operations() {
    let a = LightFlag::from_bits_truncate(LIGHT_AREA);
    let b = LightFlag::from_bits_truncate(LIGHT_DPOS);
    let u = a.union(b);
    assert_eq!(u.bits(), LIGHT_AREA | LIGHT_DPOS);
    assert!(u.contains(a));
    assert!(!a.contains(u));
    assert_eq!(LightFlag::from_bits_truncate(0xff).bits(), 0xf);
}

#[test]
fn bxdf_type_set_operations() {
    let r = BxdfType::from_bits_truncate(BXDF_REFLECTION);
    let d = BxdfType::from_bits_truncate(BXDF_DIFFUSE);
    let rd = r.union(d);
    assert_eq!(rd.bits(), 0x05);
    assert!(rd.contains(r));
    assert!(!rd.contains(BxdfType::from_bits_truncate(BXDF_SPECULAR)));
    assert_eq!(BxdfType::from_bits_truncate(0xffff).bits(), 0x1f);
}

#[test]
fn plain_types() {
    assert_eq!(Noop, Noop);
    let s = BVHStrategy::SAH;
    assert_ne!(s, BVHStrategy::MidPoint);
    assert_eq!(s, BVHStrategy::SAH);
}

#[test]
fn light_flag_bitflags_api() {
    let mut f = LightFlag::empty();
    assert!(f.is_empty());
    f.insert(LightFlag::from_bits_truncate(LIGHT_DDIR | LIGHT_AREA));
    assert_eq!(f.bits(), LIGHT_DDIR | LIGHT_AREA);
    assert!(f.intersects(LightFlag::from_bits_truncate(LIGHT_AREA)));
    assert!(!f.intersects(LightFlag::from_bits_truncate(LIGHT_DPOS)));
    f.remove(LightFlag::from_bits_truncate(LIGHT_DDIR));
    assert_eq!(f.bits(), LIGHT_AREA);
    assert_eq!(f.intersection(LightFlag::all()).bits(), LIGHT_AREA);
    assert!(LightFlag::all().is_all());
    assert_eq!(LightFlag::from_bits(0x10), None);
    assert_eq!(LightFlag::from_bits(LIGHT_INFINITE).map(|x| x.bits()), Some(LIGHT_INFINITE));
}

#[test]
fn bxdf_type_bitflags_api() {
    let mut t = BxdfType::all();
    assert_eq!(t.bits(), 0x1f);
    t.remove(BxdfType::from_bits_truncate(BXDF_SPECULAR));
    assert!(!t.contains(BxdfType::from_bits_truncate(BXDF_SPECULAR)));
    assert!(t.intersects(BxdfType::from_bits_truncate(BXDF_DIFFUSE)));
    assert!(BxdfType::empty().is_empty());
    assert!(BxdfType::from_bits(0x20).is_none());
}

#[test]
fn flag_difference_complement_toggle() {
    let a = LightFlag::from_bits_truncate(LIGHT_DPOS | LIGHT_AREA);
    let b = LightFlag::from_bits_truncate(LIGHT_AREA | LIGHT_INFINITE);
    assert_eq!(a.difference(b).bits(), LIGHT_DPOS);
    assert_eq!(a.symmetric_difference(b).bits(), LIGHT_DPOS | LIGHT_INFINITE);
    assert_eq!(a.complement().bits(), LIGHT_DDIR | LIGHT_INFINITE);
    let mut c = a;
    c.toggle(b);
    assert_eq!(c.bits(), LIGHT_DPOS | LIGHT_INFINITE);
    let t = BxdfType::from_bits_truncate(BXDF_REFLECTION);
    assert_eq!(t.complement().bits(), 0x1e);
    let mut u = t;
    u.toggle(BxdfType::from_bits_truncate(BXDF_REFLECTION | BXDF_DIFFUSE));
    assert_eq!(u.bits(), BXDF_DIFFUSE);
}
