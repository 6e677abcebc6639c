use cmake_init::features::{Backend, Features};
use cmake_init::sources::{gitignore_content, kernel_source, render_main_cpp, source_files};

fn feats(mpi: bool, kokkos: bool, cuda: bool, hip: bool) -> Features {
    Features {
        mpi,
        cuda,
        hip,
        kokkos,
    }
}

#[test]
fn mpi_cuda_entry_does_both() {
    let main = render_main_cpp(&feats(true, false, true, false));
    assert!(main.contains("MPI_Init"));
    assert!(main.contains("run_kernel();"));
}

#[test]
fn kokkos_entry_initializes_and_finalizes_kokkos() {
    let main = render_main_cpp(&feats(false, true, false, false));
    assert!(main.contains("#include <Kokkos_Core.hpp>"));
    assert!(main.contains("Kokkos::initialize(argc, argv);"));
    assert!(main.contains("Kokkos::finalize();"));
    assert!(!main.contains("MPI_Init"));
    assert!(!main.contains("MPI_Finalize"));
}

#[test]
fn mpi_and_kokkos_lifecycle_is_properly_ordered() {
    // Mixed-dependency lifecycle: MPI_Init -> Kokkos::initialize -> ...
    // -> Kokkos::finalize -> MPI_Finalize, so MPI stays alive underneath
    // any MPI-aware Kokkos path in both directions.
    let main = render_main_cpp(&feats(true, true, true, false));
    let mpi_init = main.find("MPI_Init").expect("missing MPI_Init");
    let kokkos_init = main
        .find("Kokkos::initialize")
        .expect("missing Kokkos::initialize");
    let kokkos_finalize = main
        .find("Kokkos::finalize")
        .expect("missing Kokkos::finalize");
    let mpi_finalize = main.find("MPI_Finalize").expect("missing MPI_Finalize");
    assert!(mpi_init < kokkos_init);
    assert!(kokkos_init < kokkos_finalize);
    assert!(kokkos_finalize < mpi_finalize);
}

#[test]
fn plain_main_cpp_full_text() {
    let main = render_main_cpp(&Features::default());
    assert_eq!(
        main,
        "#include <iostream>\n\
         \n\
         int main(int argc, char* argv[]) {\n    \
         std::cout << \"Hello, World!\" << std::endl;\n    \
         return 0;\n\
         }\n"
    );
    assert!(!main.contains("run_kernel"));
}

#[test]
fn mpi_main_greets_per_rank() {
    let main = render_main_cpp(&feats(true, false, false, false));
    assert!(main.contains("#include <mpi.h>\n"));
    assert!(main.contains("MPI_Comm_rank(MPI_COMM_WORLD, &rank);"));
    assert!(main.contains("MPI_Finalize();"));
    assert!(!main.contains("Hello, World!"));
    assert!(!main.contains("run_kernel"));
}

#[test]
fn kernel_called_once_with_both_backends() {
    let main = render_main_cpp(&feats(false, false, true, true));
    // The indented form is the call site (the declaration is unindented).
    assert_eq!(main.matches("    run_kernel();").count(), 1);
    assert!(main.contains("\nvoid run_kernel();\n"));
    let hip_only = render_main_cpp(&feats(false, false, false, true));
    assert_eq!(hip_only.matches("    run_kernel();").count(), 1);
}

#[test]
fn source_tree_has_one_kernel_per_backend() {

    let plain = source_files(&Features::default());
    assert_eq!(plain.len(), 1);
    assert_eq!(plain[0].path, "src/main.cpp");
    assert_eq!(plain[0].content, render_main_cpp(&Features::default()));

    let both = feats(true, false, true, true);
    let files = source_files(&both);
    let paths: Vec<&str> = files.iter().map(|f| f.path.as_str()).collect();
    assert_eq!(paths, vec!["src/main.cpp", "src/kernel.cu", "src/kernel.hip"]);
    assert_eq!(files[1].content, kernel_source(Backend::Cuda));
    assert_eq!(files[2].content, kernel_source(Backend::Hip));

    let hip = source_files(&feats(false, false, false, true));
    assert_eq!(hip.len(), 2);
    assert_eq!(hip[1].path, "src/kernel.hip");
}

#[test]
fn kernels_define_run_kernel() {
    for b in [Backend::Cuda, Backend::Hip] {
        let k = kernel_source(b);
        assert!(k.contains("__global__"));
        assert!(k.contains("void run_kernel() {"));
    }
    assert!(kernel_source(Backend::Hip).contains("hip_runtime.h"));
}

#[test]
fn default_gitignore_ignores_build() {
    assert!(gitignore_content().contains("build"));
    assert!(gitignore_content().ends_with('\n'));
}

#[test]
fn lifecycle_calls_occur_once_each() {
    for cuda in [false, true] {
        let main = render_main_cpp(&feats(true, true, cuda, false));
        for call in ["MPI_Init", "Kokkos::initialize", "Kokkos::finalize", "MPI_Finalize"] {
            assert_eq!(main.matches(call).count(), 1, "{call}");
        }
    }
    let plain = render_main_cpp(&feats(false, false, false, false));
    assert_eq!(plain.matches("run_kernel").count(), 0);
    assert_eq!(plain.matches("MPI_Init").count(), 0);
}
