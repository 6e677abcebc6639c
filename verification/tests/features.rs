use cmake_init::features::{Backend, Features, Target};

fn t(name: &str, backend: Option<Backend>, mpi: bool) -> Target {
    Target {
        name: name.to_string(),
        backend,
        mpi,
    }
}

#[test]
fn features_plain_cpp_single_target() {
    let f = Features::default();
    assert_eq!(f.targets("proj"), vec![t("proj", None, false)]);
}

#[test]
fn mpi_only_links_single_cpp_target() {
    let f = Features {
        mpi: true,
        ..Default::default()
    };
    assert_eq!(f.targets("proj"), vec![t("proj", None, true)]);
}

#[test]
fn single_backend_keeps_project_name() {
    let cuda = Features {
        cuda: true,
        ..Default::default()
    };
    assert_eq!(
        cuda.targets("proj"),
        vec![t("proj", Some(Backend::Cuda), false)]
    );

    let hip = Features {
        hip: true,
        ..Default::default()
    };
    assert_eq!(
        hip.targets("proj"),
        vec![t("proj", Some(Backend::Hip), false)]
    );
}

#[test]
fn mpi_modifies_single_backend_target() {
    let f = Features {
        mpi: true,
        cuda: true,
        ..Default::default()
    };
    assert_eq!(
        f.targets("proj"),
        vec![t("proj", Some(Backend::Cuda), true)]
    );
}

#[test]
fn cuda_and_hip_split_into_two_suffixed_targets() {
    let f = Features {
        cuda: true,
        hip: true,
        ..Default::default()
    };
    assert_eq!(
        f.targets("proj"),
        vec![
            t("proj_cuda", Some(Backend::Cuda), false),
            t("proj_hip", Some(Backend::Hip), false),
        ]
    );
}

#[test]
fn mpi_cuda_hip_yields_two_mpi_aware_targets() {
    let f = Features {
        mpi: true,
        cuda: true,
        hip: true,
        kokkos: false,
    };
    assert_eq!(
        f.targets("proj"),
        vec![
            t("proj_cuda", Some(Backend::Cuda), true),
            t("proj_hip", Some(Backend::Hip), true),
        ]
    );
}

#[test]
fn backends_are_ordered_cuda_before_hip() {
    let f = Features {
        cuda: true,
        hip: true,
        ..Default::default()
    };
    assert_eq!(f.backends(), vec![Backend::Cuda, Backend::Hip]);
}

#[test]
fn backend_names() {
    assert_eq!(Backend::Cuda.suffix(), "cuda");
    assert_eq!(Backend::Hip.suffix(), "hip");
    assert_eq!(Backend::Cuda.kernel_ext(), "cu");
    assert_eq!(Backend::Hip.kernel_ext(), "hip");
    assert_eq!(Backend::Cuda.cmake_lang(), "CUDA");
    assert_eq!(Backend::Hip.cmake_lang(), "HIP");
}

#[test]
fn has_matches_backends() {
    let f = Features {
        hip: true,
        ..Default::default()
    };
    assert!(f.has(Backend::Hip));
    assert!(!f.has(Backend::Cuda));
    assert_eq!(f.backends(), vec![Backend::Hip]);
    assert!(Features::default().backends().is_empty());
}

#[test]
fn kokkos_and_mpi_leave_targets_unchanged() {
    let base = Features {
        cuda: true,
        hip: true,
        ..Default::default()
    };
    let with = Features {
        mpi: true,
        kokkos: true,
        ..base
    };
    let a = base.targets("app");
    let b = with.targets("app");
    assert_eq!(a.len(), b.len());
    for (x, y) in a.iter().zip(b.iter()) {
        assert_eq!(x.name, y.name);
        assert_eq!(x.backend, y.backend);
        assert!(y.mpi);
    }
    let k = Features {
        kokkos: true,
        ..Default::default()
    };
    assert_eq!(k.targets("app"), vec![t("app", None, false)]);
}

#[test]
fn two_targets_have_distinct_names() {
    let f = Features {
        cuda: true,
        hip: true,
        ..Default::default()
    };
    let ts = f.targets("x");
    assert_eq!(ts.len(), 2);
    assert_ne!(ts[0].name, ts[1].name);
}
