use loopana::analyses::mapper::Mapper;
use loopana::mapping::{Mapping, MappingType};
use loopana::loop_prob::Loop;
use loopana::passes::noc_analysis::NoCAnalysis;
use loopana::representations::arch::{Arch, DataPort, MemoryPort, NocPort, PEArch};
use loopana::representations::loops::LoopNest;

fn noc(name: &str, topology: &[i32]) -> DataPort {
    DataPort::NocPort(NocPort {
        name: name.to_string(),
        topology: topology.to_vec(),
    })
}

fn mapper(ports: Vec<DataPort>) -> Mapper {
    Mapper::new(
        Arch {
            pe_arch: PEArch {
                data_ports: ports,
                data_width: 32,
            },
            dimensions: vec![],
        },
        LoopNest {
            iters: vec![],
            body: vec![],
            properties: None,
        },
    )
}

#[test]
fn network_symmetry_and_rank() {
    let mem = DataPort::MemoryReadPort(MemoryPort {
        name: "ld".to_string(),
        mem_name: "sram".to_string(),
    });
    let mesh = mapper(vec![
        noc("north", &[0, 1]),
        mem,
        noc("south", &[0, -1]),
        noc("east", &[1, 0]),
        noc("west", &[-1, 0]),
    ]);
    assert_eq!(mesh.get_noc_ports().len(), 4);
    assert_eq!(mesh.arch.data_ports().len(), 5);
    assert!(mesh.check_noc_symetry());
    assert_eq!(mesh.noc_rank(), Some(2));
    let north = NocPort {
        name: "n".to_string(),
        topology: vec![0, 1],
    };
    assert_eq!(mesh.find_symmetric_noc(&north).unwrap().name, "south");
    let up = NocPort {
        name: "u".to_string(),
        topology: vec![0, 0, 1],
    };
    assert_eq!(mesh.find_symmetric_noc(&up), None);
    mesh.generate_all_mappings();

    let lopsided = mapper(vec![noc("north", &[0, 1]), noc("east", &[1, 0])]);
    assert!(!lopsided.check_noc_symetry());
    assert_eq!(lopsided.noc_rank(), None);
    // A port is not its own opposite, though its direction is.
    let still = mapper(vec![noc("here", &[0, 0])]);
    assert!(!still.check_noc_symetry());
    assert!(Mapper::is_symmetric_opposites(&vec![0, 0], &vec![0, 0]));
    assert!(!Mapper::is_symmetric_opposites(&vec![1], &vec![-1, 0]));
    assert!(!Mapper::is_symmetric_opposites(
        &vec![i32::MIN],
        &vec![i32::MIN]
    ));
    assert!(mapper(vec![]).check_noc_symetry());
    assert_eq!(mapper(vec![]).noc_rank(), Some(0));
}

#[test]
fn loops_are_mapped_by_name() {
    let m = Loop {
        iter_name: "m".to_string(),
        bounds: (0, 8),
        step: 1,
    };
    let n = Loop {
        iter_name: "n".to_string(),
        bounds: (0, 4),
        step: 1,
    };
    let mapping = Mapping::new()
        .add_mapping(&m, MappingType::InterTile)
        .add_mapping(&n, MappingType::Spatial)
        .add_mapping(&m, MappingType::IntraTile);
    assert_eq!(
        mapping.get_mapping_by_iter_name("m"),
        Some(&MappingType::IntraTile)
    );
    assert_eq!(
        mapping.get_mapping_by_iter_name("n"),
        Some(&MappingType::Spatial)
    );
    assert_eq!(mapping.get_mapping_by_iter_name("k"), None);
    assert_eq!(mapping.mapping.len(), 2);
}

#[test]
fn noc_analysis_starts_empty() {
    let nest = LoopNest {
        iters: vec![],
        body: vec![],
        properties: None,
    };
    let analysis = NoCAnalysis::from_loop_nest(nest.clone());
    assert_eq!(analysis.loop_nest, nest);
    assert!(analysis.concretized_noc.is_empty());
}
