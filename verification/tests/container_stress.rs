use crashlab_core::container_stress::{
    generate_container_stress_grid, ContainerStressConfig, ContainerStressMutator,
};
use crashlab_core::{CaseSeed, Mutator};

#[test]
fn container_stress_mutator_name() {
    assert_eq!(
        ContainerStressMutator::default_mutator().name(),
        "container-stress"
    );
}

#[test]
fn container_stress_deterministic_for_same_inputs() {
    let m = ContainerStressMutator::default_mutator();
    let seed = CaseSeed {
        id: 10,
        payload: vec![1, 2, 3],
    };
    let a = m.mutate(&seed, &mut 99u64);
    let b = m.mutate(&seed, &mut 99u64);
    assert_eq!(a, b);
}

#[test]
fn respects_vec_bounds() {
    let cfg = ContainerStressConfig::new(5, 10, 0, 2);
    let m = ContainerStressMutator::new(cfg);
    let seed = CaseSeed {
        id: 1,
        payload: vec![0xFF; 40],
    };
    for r in 0..50u64 {
        let mut rng = r;
        let out = m.mutate(&seed, &mut rng);
        if out.payload[0] == 0xD0 {
            let vec_sz = u64::from_le_bytes(out.payload[1..9].try_into().unwrap());
            assert!(vec_sz >= 5 && vec_sz <= 10);
        }
    }
}

#[test]
fn respects_map_bounds() {
    let cfg = ContainerStressConfig::new(0, 1, 20, 30);
    let m = ContainerStressMutator::new(cfg);
    let seed = CaseSeed {
        id: 2,
        payload: vec![0xAB; 20],
    };
    for r in 0..80u64 {
        let mut rng = r.wrapping_mul(0xFFFF);
        let out = m.mutate(&seed, &mut rng);
        if out.payload[0] == 0xD1 {
            let map_sz = u64::from_le_bytes(out.payload[1..9].try_into().unwrap());
            assert!(map_sz >= 20 && map_sz <= 30);
        }
    }
}

#[test]
fn grid_is_deterministic() {
    let cfg = ContainerStressConfig::new(1, 3, 1, 3);
    let a = generate_container_stress_grid(100, &cfg);
    let b = generate_container_stress_grid(100, &cfg);
    assert_eq!(a, b);
}
