use cmake_init::cmakelists::render;
use cmake_init::features::Features;

fn feats(mpi: bool, cuda: bool, hip: bool) -> Features {
    Features {
        mpi,
        cuda,
        hip,
        kokkos: false,
    }
}

#[test]
fn cmakelists_plain_cpp_single_target() {
    let out = render("proj", 17, &feats(false, false, false));
    assert!(out.contains("cmake_minimum_required(VERSION 3.20.0)"));
    assert!(out.contains("project(proj VERSION 0.0.0 LANGUAGES CXX)"));
    assert!(out.contains("set(CMAKE_CXX_STANDARD 17)"));
    assert!(out.contains("add_executable(proj ${CXX_SOURCES})"));
    assert!(out.contains("install(TARGETS proj)"));
    assert!(!out.contains("MPI"));
    assert!(!out.contains("CUDA"));
    assert!(!out.contains("HIP"));
    // No template placeholders survive in generated output.
    assert!(!out.contains("{{"));
}

#[test]
fn mpi_links_the_target() {
    let out = render("proj", 20, &feats(true, false, false));
    assert!(out.contains("find_package(MPI REQUIRED)"));
    assert!(out.contains("target_link_libraries(proj PRIVATE MPI::MPI_CXX)"));
}

#[test]
fn cuda_enables_language_and_globs_kernels() {
    let out = render("proj", 17, &feats(false, true, false));
    assert!(out.contains("LANGUAGES CXX CUDA)"));
    assert!(out.contains("set(CMAKE_CUDA_ARCHITECTURES native)"));
    assert!(out.contains("file(GLOB_RECURSE CUDA_SOURCES CONFIGURE_DEPENDS ./src/*.cu)"));
    assert!(out.contains("add_executable(proj ${CXX_SOURCES} ${CUDA_SOURCES})"));
}

// CUDA projects must not hard-code CMAKE_CUDA_ARCHITECTURES to 80 (Ampere),
// which silently miscompiles on other GPUs. The expected behaviour is
// `native`, which queries the installed GPU at configure time, with the
// minimum CMake version bumped to 3.24 (the first release that supports
// `native`).
#[test]
fn cuda_uses_native_architectures() {
    let out = render("proj", 17, &feats(false, true, false));
    assert!(
        out.contains("set(CMAKE_CUDA_ARCHITECTURES native)"),
        "CUDA architectures should default to `native`, not a hard-coded \
         value; generated output was:\n{out}"
    );
    assert!(
        !out.contains("set(CMAKE_CUDA_ARCHITECTURES 80)"),
        "CUDA architectures should not be hard-coded to 80 (Ampere); \
         generated output was:\n{out}"
    );
    assert!(
        out.contains("cmake_minimum_required(VERSION 3.24.0)"),
        "CUDA projects require CMake 3.24+ for `native`; generated output \
         was:\n{out}"
    );
}

#[test]
fn hip_bumps_min_version() {
    let out = render("proj", 17, &feats(false, false, true));
    assert!(out.contains("cmake_minimum_required(VERSION 3.21.0)"));
    assert!(out.contains("LANGUAGES CXX HIP)"));
    assert!(out.contains("set(CMAKE_HIP_ARCHITECTURES gfx906)"));
    assert!(out.contains("add_executable(proj ${CXX_SOURCES} ${HIP_SOURCES})"));
}

#[test]
fn cuda_and_hip_emit_two_suffixed_targets() {
    let out = render("proj", 17, &feats(false, true, true));
    assert!(out.contains("cmake_minimum_required(VERSION 3.24.0)"));
    assert!(out.contains("LANGUAGES CXX CUDA HIP)"));
    assert!(out.contains("add_executable(proj_cuda ${CXX_SOURCES} ${CUDA_SOURCES})"));
    assert!(out.contains("add_executable(proj_hip ${CXX_SOURCES} ${HIP_SOURCES})"));
    assert!(out.contains("install(TARGETS proj_cuda)"));
    assert!(out.contains("install(TARGETS proj_hip)"));
}

#[test]
fn mpi_cuda_hip_links_both_targets() {
    let out = render("proj", 17, &feats(true, true, true));
    assert!(out.contains("target_link_libraries(proj_cuda PRIVATE MPI::MPI_CXX)"));
    assert!(out.contains("target_link_libraries(proj_hip PRIVATE MPI::MPI_CXX)"));
}

#[test]
fn project_name_is_substituted() {
    let out = render("my_app", 23, &feats(false, false, false));
    assert!(out.contains("project(my_app "));
}

#[test]
fn plain_project_full_text() {
    let out = render("demo", 20, &feats(false, false, false));
    assert_eq!(
        out,
        "cmake_minimum_required(VERSION 3.20.0)\n\
         project(demo VERSION 0.0.0 LANGUAGES CXX)\n\
         \n\
         set(CMAKE_CXX_STANDARD 20)\n\
         set(CMAKE_CXX_STANDARD_REQUIRED ON)\n\
         \n\
         file(GLOB_RECURSE CXX_SOURCES CONFIGURE_DEPENDS ./src/*.cpp)\n\
         \n\
         add_executable(demo ${CXX_SOURCES})\n\
         install(TARGETS demo)\n"
    );
}

#[test]
fn kokkos_links_every_target_and_raises_min_version() {
    let f = Features {
        mpi: false,
        cuda: false,
        hip: true,
        kokkos: true,
    };
    let out = render("k", 17, &f);
    assert!(out.contains("cmake_minimum_required(VERSION 3.22.0)"));
    assert!(out.contains("\nfind_package(Kokkos REQUIRED)\n"));
    assert!(out.contains("target_link_libraries(k PRIVATE Kokkos::kokkos)"));
    assert!(!out.contains("MPI"));

    let both = Features {
        mpi: true,
        cuda: true,
        hip: true,
        kokkos: true,
    };
    let out = render("k", 17, &both);
    assert!(out.contains("cmake_minimum_required(VERSION 3.24.0)"));
    assert!(out.contains("target_link_libraries(k_cuda PRIVATE Kokkos::kokkos)"));
    assert!(out.contains("target_link_libraries(k_hip PRIVATE Kokkos::kokkos)"));
    assert_eq!(out.matches("add_executable(").count(), 2);
    assert_eq!(out.matches("PRIVATE MPI::MPI_CXX").count(), 2);
}

#[test]
fn cxx_std_is_written_in_decimal() {
    let out = render("p", 26, &feats(false, false, false));
    assert!(out.contains("set(CMAKE_CXX_STANDARD 26)\n"));
    let out = render("p", -7, &feats(false, false, false));
    assert!(out.contains("set(CMAKE_CXX_STANDARD -7)\n"));
    let out = render("p", i32::MIN, &feats(false, false, false));
    assert!(out.contains("set(CMAKE_CXX_STANDARD -2147483648)\n"));
    let out = render("p", 0, &feats(false, false, false));
    assert!(out.contains("set(CMAKE_CXX_STANDARD 0)\n"));
}

#[test]
fn one_block_per_target() {
    for mpi in [false, true] {
        for kokkos in [false, true] {
            for (cuda, hip) in [(false, false), (true, false), (false, true), (true, true)] {
                let f = Features { mpi, cuda, hip, kokkos };
                let out = render("app-1", 20, &f);
                let ts = f.targets("app-1");
                assert_eq!(out.matches("add_executable(").count(), ts.len());
                for t in &ts {
                    let src = match t.backend {
                        None => "${CXX_SOURCES}",
                        Some(cmake_init::features::Backend::Cuda) => "${CXX_SOURCES} ${CUDA_SOURCES}",
                        Some(cmake_init::features::Backend::Hip) => "${CXX_SOURCES} ${HIP_SOURCES}",
                    };
                    assert!(out.contains(&format!("add_executable({} {})\n", t.name, src)));
                    assert!(out.contains(&format!("install(TARGETS {})\n", t.name)));
                    assert_eq!(
                        t.mpi,
                        out.contains(&format!("target_link_libraries({} PRIVATE MPI::MPI_CXX)", t.name))
                    );
                }
            }
        }
    }
}
