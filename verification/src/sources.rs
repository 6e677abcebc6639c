//! The project's sources: the C++ entry point `src/main.cpp`, one kernel
//! file per GPU backend, and the default `.gitignore`.
//!
//! The entry point is backend-agnostic: when a GPU backend is enabled it
//! calls `run_kernel()`, which each backend's kernel file (`kernel.cu` /
//! `kernel.hip`) defines. This keeps it shareable across the two targets
//! produced when both CUDA and HIP are requested. Requested runtime
//! dependencies (MPI, Kokkos) are initialized and finalized around the body
//! of `main` in a fixed order: `MPI_Init`, then `Kokkos::initialize`, and
//! in reverse on the way out.
use vstd::prelude::*;

use crate::features::{Backend, Features, spec_kernel_ext};
use crate::occurrences::{
    contains_text, count_occurrences, ends_line, has4,
    lemma_count_concat_lines, lemma_count_one_by4, lemma_count_zero_by4,
    lemma_contains_trans, lemma_contains_within, lemma_count_zero_not_contained, occurs_at,
    single_line,
};
use crate::text::text_if;

verus! {

/// Whether a GPU backend is enabled.
pub open spec fn has_backend(f: Features) -> bool {
    f.cuda || f.hip
}

/// The line that starts MPI.
pub open spec fn mpi_init_line() -> Seq<char> {
    "    MPI_Init(&argc, &argv);\n"@
}

/// The line that starts Kokkos.
pub open spec fn kokkos_init_line() -> Seq<char> {
    "    Kokkos::initialize(argc, argv);\n"@
}

/// The line that stops Kokkos.
pub open spec fn kokkos_finalize_line() -> Seq<char> {
    "    Kokkos::finalize();\n"@
}

/// The line that stops MPI.
pub open spec fn mpi_finalize_line() -> Seq<char> {
    "    MPI_Finalize();\n"@
}

/// The line that calls the GPU kernel.
pub open spec fn kernel_call_line() -> Seq<char> {
    "    run_kernel();\n"@
}

/// The `#include` lines.
pub open spec fn main_includes(f: Features) -> Seq<char> {
    "#include <iostream>\n"@ + text_if(f.mpi, "#include <mpi.h>\n"@) + text_if(
        f.kokkos,
        "#include <Kokkos_Core.hpp>\n"@,
    )
}

/// The declaration of the kernel entry point, when a backend is enabled.
pub open spec fn kernel_declaration(f: Features) -> Seq<char> {
    text_if(
        has_backend(f),
        "\n// Defined in the GPU kernel source (kernel.cu / kernel.hip).\nvoid run_kernel();\n"@,
    )
}

/// Bringing up the runtime dependencies: MPI first, then Kokkos.
pub open spec fn main_startup(f: Features) -> Seq<char> {
    text_if(f.mpi, mpi_init_line()) + text_if(f.kokkos, text_if(f.mpi, "\n"@) + kokkos_init_line())
        + text_if(f.mpi || f.kokkos, "\n"@)
}

/// The body's greeting: per rank under MPI, else a plain hello.
pub open spec fn main_greeting(f: Features) -> Seq<char> {
    if f.mpi {
        "    int rank = 0;\n"@ + "    int size = 0;\n"@ + "    MPI_Comm_rank(MPI_COMM_WORLD, &rank);\n"@
            + "    MPI_Comm_size(MPI_COMM_WORLD, &size);\n\n"@
            + "    std::cout << \"Hello from rank \" << rank << \" of \" << size << std::endl;\n"@
    } else {
        "    std::cout << \"Hello, World!\" << std::endl;\n"@
    }
}

/// Tearing down the runtime dependencies: Kokkos first, then MPI.
pub open spec fn main_shutdown(f: Features) -> Seq<char> {
    text_if(f.mpi || f.kokkos, "\n"@) + text_if(f.kokkos, kokkos_finalize_line()) + text_if(
        f.mpi,
        mpi_finalize_line(),
    )
}

/// The whole of `main.cpp` for the requested features.
pub open spec fn spec_main_cpp(f: Features) -> Seq<char> {
    main_includes(f) + kernel_declaration(f) + "\nint main(int argc, char* argv[]) {\n"@
        + main_startup(f) + main_greeting(f) + text_if(has_backend(f), kernel_call_line())
        + main_shutdown(f) + "    return 0;\n"@ + "}\n"@
}

/// Build the contents of `main.cpp` for the requested features. The entry
/// point brings dependencies up in a fixed order (`MPI_Init`, then
/// `Kokkos::initialize`), calls `run_kernel()` when a GPU backend is
/// enabled, and tears everything down in reverse order (`Kokkos::finalize`,
/// then `MPI_Finalize`) so MPI stays alive underneath MPI-aware Kokkos paths.
pub fn render_main_cpp(features: &Features) -> (out: String)
    ensures
        out@ == spec_main_cpp(*features),
{
    let with_kernel = features.cuda || features.hip;

    let mut out = String::from_str("#include <iostream>\n");
    if features.mpi {
        out.append("#include <mpi.h>\n");
    }
    if features.kokkos {
        out.append("#include <Kokkos_Core.hpp>\n");
    }
    assert(out@ =~= main_includes(*features));
    let ghost after_includes = out@;

    if with_kernel {
        out.append("\n// Defined in the GPU kernel source (kernel.cu / kernel.hip).\nvoid run_kernel();\n");
    }
    assert(out@ =~= after_includes + kernel_declaration(*features));

    out.append("\nint main(int argc, char* argv[]) {\n");
    let ghost before_startup = out@;

    if features.mpi {
        out.append("    MPI_Init(&argc, &argv);\n");
    }
    if features.kokkos {
        if features.mpi {
            out.append("\n");
        }
        out.append("    Kokkos::initialize(argc, argv);\n");
    }
    if features.mpi || features.kokkos {
        out.append("\n");
    }
    assert(out@ =~= before_startup + main_startup(*features));
    let ghost before_greeting = out@;

    if features.mpi {
        out.append("    int rank = 0;\n");
        out.append("    int size = 0;\n");
        out.append("    MPI_Comm_rank(MPI_COMM_WORLD, &rank);\n");
        out.append("    MPI_Comm_size(MPI_COMM_WORLD, &size);\n\n");
        out.append(
            "    std::cout << \"Hello from rank \" << rank << \" of \" << size << std::endl;\n",
        );
    } else {
        out.append("    std::cout << \"Hello, World!\" << std::endl;\n");
    }
    assert(out@ =~= before_greeting + main_greeting(*features));
    let ghost before_call = out@;

    if with_kernel {
        out.append("    run_kernel();\n");
    }
    assert(out@ =~= before_call + text_if(has_backend(*features), kernel_call_line()));
    let ghost before_shutdown = out@;

    if features.mpi || features.kokkos {
        out.append("\n");
    }
    if features.kokkos {
        out.append("    Kokkos::finalize();\n");
    }
    if features.mpi {
        out.append("    MPI_Finalize();\n");
    }
    assert(out@ =~= before_shutdown + main_shutdown(*features));

    out.append("    return 0;\n");
    out.append("}\n");
    assert(out@ =~= spec_main_cpp(*features));
    out
}

// ---------------------------------------------------------------------------
// Where the lifecycle calls and the kernel call stand
// ---------------------------------------------------------------------------

/// The call that starts MPI.
pub open spec fn mpi_init_call() -> Seq<char> {
    "MPI_Init"@
}

/// The call that starts Kokkos.
pub open spec fn kokkos_init_call() -> Seq<char> {
    "Kokkos::initialize"@
}

/// The call that stops Kokkos.
pub open spec fn kokkos_finalize_call() -> Seq<char> {
    "Kokkos::finalize"@
}

/// The call that stops MPI.
pub open spec fn mpi_finalize_call() -> Seq<char> {
    "MPI_Finalize"@
}

/// The statement that calls the kernel from the body of `main`.
pub open spec fn kernel_call_statement() -> Seq<char> {
    "    run_kernel();"@
}

/// The kernel's name.
pub open spec fn kernel_name() -> Seq<char> {
    "run_kernel"@
}

proof fn lemma_call_patterns()
    ensures
        mpi_init_call().len() == 8 && single_line(mpi_init_call()) && mpi_init_call()[3] == '_'
            && mpi_init_call()[4] == 'I' && mpi_init_call()[5] == 'n' && mpi_init_call()[6] == 'i',
        kokkos_init_call().len() == 18 && single_line(kokkos_init_call()) && kokkos_init_call()[5]
            == 's' && kokkos_init_call()[6] == ':' && kokkos_init_call()[7] == ':'
            && kokkos_init_call()[8] == 'i',
        kokkos_finalize_call().len() == 16 && single_line(kokkos_finalize_call())
            && kokkos_finalize_call()[5] == 's' && kokkos_finalize_call()[6] == ':'
            && kokkos_finalize_call()[7] == ':' && kokkos_finalize_call()[8] == 'f',
        mpi_finalize_call().len() == 12 && single_line(mpi_finalize_call()) && mpi_finalize_call()[3]
            == '_' && mpi_finalize_call()[4] == 'F' && mpi_finalize_call()[5] == 'i'
            && mpi_finalize_call()[6] == 'n',
        kernel_call_statement().len() == 17 && single_line(kernel_call_statement())
            && kernel_call_statement()[2] == ' ' && kernel_call_statement()[3] == ' '
            && kernel_call_statement()[4] == 'r' && kernel_call_statement()[5] == 'u',
        kernel_name().len() == 10 && single_line(kernel_name()) && kernel_name()[0] == 'r'
            && kernel_name()[1] == 'u' && kernel_name()[2] == 'n' && kernel_name()[3] == '_',
{
    reveal_strlit("MPI_Init");
    reveal_strlit("Kokkos::initialize");
    reveal_strlit("Kokkos::finalize");
    reveal_strlit("MPI_Finalize");
    reveal_strlit("    run_kernel();");
    reveal_strlit("run_kernel");
}

/// Neither lifecycle call nor kernel call: the windows that tell them apart
/// stand nowhere in `x`.
pub open spec fn quiet(x: Seq<char>) -> bool {
    &&& forall|j: int| !#[trigger] has4(x, j, '_', 'I', 'n', 'i')
    &&& forall|j: int| !#[trigger] has4(x, j, 's', ':', ':', 'i')
    &&& forall|j: int| !#[trigger] has4(x, j, 's', ':', ':', 'f')
    &&& forall|j: int| !#[trigger] has4(x, j, '_', 'F', 'i', 'n')
    &&& forall|j: int| !#[trigger] has4(x, j, ' ', ' ', 'r', 'u')
}

/// No mention of the kernel at all.
pub open spec fn kernel_free(x: Seq<char>) -> bool {
    forall|j: int| !#[trigger] has4(x, j, 'r', 'u', 'n', '_')
}

/// The number of times each call occurs.
pub open spec fn call_counts(x: Seq<char>) -> (nat, nat, nat, nat, nat) {
    (
        count_occurrences(x, mpi_init_call()),
        count_occurrences(x, kokkos_init_call()),
        count_occurrences(x, kokkos_finalize_call()),
        count_occurrences(x, mpi_finalize_call()),
        count_occurrences(x, kernel_call_statement()),
    )
}

proof fn lemma_quiet_counts(x: Seq<char>)
    requires
        quiet(x),
    ensures
        call_counts(x) == (0nat, 0nat, 0nat, 0nat, 0nat),
{
    lemma_call_patterns();
    lemma_count_zero_by4(x, mpi_init_call(), 3);
    lemma_count_zero_by4(x, kokkos_init_call(), 5);
    lemma_count_zero_by4(x, kokkos_finalize_call(), 5);
    lemma_count_zero_by4(x, mpi_finalize_call(), 3);
    lemma_count_zero_by4(x, kernel_call_statement(), 2);
}

proof fn lemma_kernel_free_count(x: Seq<char>)
    requires
        kernel_free(x),
    ensures
        count_occurrences(x, kernel_name()) == 0,
{
    lemma_call_patterns();
    lemma_count_zero_by4(x, kernel_name(), 0);
}

/// Counts add up over lines.
proof fn lemma_call_counts_concat(a: Seq<char>, b: Seq<char>)
    requires
        ends_line(a),
    ensures
        call_counts(a + b) == ({
            let (a1, a2, a3, a4, a5) = call_counts(a);
            let (b1, b2, b3, b4, b5) = call_counts(b);
            (a1 + b1, a2 + b2, a3 + b3, a4 + b4, a5 + b5)
        }),
        count_occurrences(a + b, kernel_name()) == count_occurrences(a, kernel_name())
            + count_occurrences(b, kernel_name()),
        ends_line(b) ==> ends_line(a + b),
{
    lemma_call_patterns();
    lemma_count_concat_lines(a, b, mpi_init_call());
    lemma_count_concat_lines(a, b, kokkos_init_call());
    lemma_count_concat_lines(a, b, kokkos_finalize_call());
    lemma_count_concat_lines(a, b, mpi_finalize_call());
    lemma_count_concat_lines(a, b, kernel_call_statement());
    lemma_count_concat_lines(a, b, kernel_name());
    if b.len() > 0 {
        assert((a + b).last() == b.last());
    } else {
        assert(a + b =~= a);
    }
}

proof fn lemma_includes_quiet(f: Features)
    ensures
        quiet(main_includes(f)),
        kernel_free(main_includes(f)),
        ends_line(main_includes(f)),
{
    reveal_strlit("#include <iostream>\n");
    reveal_strlit("#include <mpi.h>\n");
    reveal_strlit("#include <Kokkos_Core.hpp>\n");
}

proof fn lemma_declaration_quiet(f: Features)
    ensures
        quiet(kernel_declaration(f)),
        ends_line(kernel_declaration(f)),
        !has_backend(f) ==> kernel_declaration(f).len() == 0,
{
    reveal_strlit(
        "\n// Defined in the GPU kernel source (kernel.cu / kernel.hip).\nvoid run_kernel();\n",
    );
}

proof fn lemma_frame_quiet()
    ensures
        quiet("\nint main(int argc, char* argv[]) {\n"@),
        kernel_free("\nint main(int argc, char* argv[]) {\n"@),
        ends_line("\nint main(int argc, char* argv[]) {\n"@),
        quiet("    return 0;\n"@ + "}\n"@),
        kernel_free("    return 0;\n"@ + "}\n"@),
        ends_line("    return 0;\n"@ + "}\n"@),
{
    reveal_strlit("\nint main(int argc, char* argv[]) {\n");
    reveal_strlit("    return 0;\n");
    reveal_strlit("}\n");
}

proof fn lemma_greeting_quiet(f: Features)
    ensures
        quiet(main_greeting(f)),
        kernel_free(main_greeting(f)),
        ends_line(main_greeting(f)),
{
    reveal_strlit("    int rank = 0;\n");
    reveal_strlit("    int size = 0;\n");
    reveal_strlit("    MPI_Comm_rank(MPI_COMM_WORLD, &rank);\n");
    reveal_strlit("    MPI_Comm_size(MPI_COMM_WORLD, &size);\n\n");
    reveal_strlit("    std::cout << \"Hello from rank \" << rank << \" of \" << size << std::endl;\n");
    reveal_strlit("    std::cout << \"Hello, World!\" << std::endl;\n");
}

proof fn lemma_startup_counts(f: Features)
    ensures
        call_counts(main_startup(f)) == (
            if f.mpi {
                1nat
            } else {
                0nat
            },
            if f.kokkos {
                1nat
            } else {
                0nat
            },
            0nat,
            0nat,
            0nat,
        ),
        kernel_free(main_startup(f)),
        ends_line(main_startup(f)),
{
    reveal_strlit("MPI_Init");
    reveal_strlit("Kokkos::initialize");
    reveal_strlit("Kokkos::finalize");
    reveal_strlit("MPI_Finalize");
    reveal_strlit("    run_kernel();");
    lemma_call_patterns();
    reveal_strlit("    MPI_Init(&argc, &argv);\n");
    reveal_strlit("\n");
    reveal_strlit("    Kokkos::initialize(argc, argv);\n");
    let l1 = mpi_init_line();
    let gap = text_if(f.mpi, "\n"@);
    let l2 = kokkos_init_line();
    let s1 = text_if(f.mpi, l1);
    let s2 = text_if(f.kokkos, gap + l2);
    let s3 = text_if(f.mpi || f.kokkos, "\n"@);
    assert(main_startup(f) =~= s1 + s2 + s3);
    // the MPI line
    let p1 = mpi_init_call();
    assert(occurs_at(l1, p1, 4)) by {
        assert(l1.subrange(4, 12) =~= p1);
    }
    lemma_count_one_by4(l1, p1, 3, 4);
    assert forall|j: int| !#[trigger] has4(l1, j, 's', ':', ':', 'i') by {}
    assert forall|j: int| !#[trigger] has4(l1, j, 's', ':', ':', 'f') by {}
    assert forall|j: int| !#[trigger] has4(l1, j, '_', 'F', 'i', 'n') by {}
    assert forall|j: int| !#[trigger] has4(l1, j, ' ', ' ', 'r', 'u') by {}
    lemma_count_zero_by4(l1, kokkos_init_call(), 5);
    lemma_count_zero_by4(l1, kokkos_finalize_call(), 5);
    lemma_count_zero_by4(l1, mpi_finalize_call(), 3);
    lemma_count_zero_by4(l1, kernel_call_statement(), 2);
    // the Kokkos line, after the gap
    let x = gap + l2;
    let p2 = kokkos_init_call();
    assert(occurs_at(x, p2, gap.len() as int + 4)) by {
        assert(x.subrange(gap.len() as int + 4, gap.len() as int + 22) =~= p2);
    }
    lemma_count_one_by4(x, p2, 5, gap.len() as int + 4);
    assert forall|j: int| !#[trigger] has4(x, j, '_', 'I', 'n', 'i') by {}
    assert forall|j: int| !#[trigger] has4(x, j, 's', ':', ':', 'f') by {}
    assert forall|j: int| !#[trigger] has4(x, j, '_', 'F', 'i', 'n') by {}
    assert forall|j: int| !#[trigger] has4(x, j, ' ', ' ', 'r', 'u') by {}
    lemma_count_zero_by4(x, mpi_init_call(), 3);
    lemma_count_zero_by4(x, kokkos_finalize_call(), 5);
    lemma_count_zero_by4(x, mpi_finalize_call(), 3);
    lemma_count_zero_by4(x, kernel_call_statement(), 2);
    assert(quiet(s3));
    lemma_quiet_counts(s3);
    if !f.mpi {
        assert(quiet(s1));
        lemma_quiet_counts(s1);
    }
    if !f.kokkos {
        assert(quiet(s2));
        lemma_quiet_counts(s2);
    }
    assert(ends_line(s1));
    assert(ends_line(s2));
    lemma_call_counts_concat(s1, s2);
    lemma_call_counts_concat(s1 + s2, s3);
}

proof fn lemma_shutdown_counts(f: Features)
    ensures
        call_counts(main_shutdown(f)) == (
            0nat,
            0nat,
            if f.kokkos {
                1nat
            } else {
                0nat
            },
            if f.mpi {
                1nat
            } else {
                0nat
            },
            0nat,
        ),
        kernel_free(main_shutdown(f)),
        ends_line(main_shutdown(f)),
{
    reveal_strlit("MPI_Init");
    reveal_strlit("Kokkos::initialize");
    reveal_strlit("Kokkos::finalize");
    reveal_strlit("MPI_Finalize");
    reveal_strlit("    run_kernel();");
    lemma_call_patterns();
    reveal_strlit("\n");
    reveal_strlit("    Kokkos::finalize();\n");
    reveal_strlit("    MPI_Finalize();\n");
    let t1 = text_if(f.mpi || f.kokkos, "\n"@);
    let l3 = kokkos_finalize_line();
    let l4 = mpi_finalize_line();
    let t2 = text_if(f.kokkos, l3);
    let t3 = text_if(f.mpi, l4);
    assert(main_shutdown(f) =~= t1 + t2 + t3);
    let p3 = kokkos_finalize_call();
    assert(occurs_at(l3, p3, 4)) by {
        assert(l3.subrange(4, 20) =~= p3);
    }
    lemma_count_one_by4(l3, p3, 5, 4);
    assert forall|j: int| !#[trigger] has4(l3, j, '_', 'I', 'n', 'i') by {}
    assert forall|j: int| !#[trigger] has4(l3, j, 's', ':', ':', 'i') by {}
    assert forall|j: int| !#[trigger] has4(l3, j, '_', 'F', 'i', 'n') by {}
    assert forall|j: int| !#[trigger] has4(l3, j, ' ', ' ', 'r', 'u') by {}
    lemma_count_zero_by4(l3, mpi_init_call(), 3);
    lemma_count_zero_by4(l3, kokkos_init_call(), 5);
    lemma_count_zero_by4(l3, mpi_finalize_call(), 3);
    lemma_count_zero_by4(l3, kernel_call_statement(), 2);
    let p4 = mpi_finalize_call();
    assert(occurs_at(l4, p4, 4)) by {
        assert(l4.subrange(4, 16) =~= p4);
    }
    lemma_count_one_by4(l4, p4, 3, 4);
    assert forall|j: int| !#[trigger] has4(l4, j, '_', 'I', 'n', 'i') by {}
    assert forall|j: int| !#[trigger] has4(l4, j, 's', ':', ':', 'i') by {}
    assert forall|j: int| !#[trigger] has4(l4, j, 's', ':', ':', 'f') by {}
    assert forall|j: int| !#[trigger] has4(l4, j, ' ', ' ', 'r', 'u') by {}
    lemma_count_zero_by4(l4, mpi_init_call(), 3);
    lemma_count_zero_by4(l4, kokkos_init_call(), 5);
    lemma_count_zero_by4(l4, kokkos_finalize_call(), 5);
    lemma_count_zero_by4(l4, kernel_call_statement(), 2);
    assert(quiet(t1));
    lemma_quiet_counts(t1);
    if !f.kokkos {
        assert(quiet(t2));
        lemma_quiet_counts(t2);
    }
    if !f.mpi {
        assert(quiet(t3));
        lemma_quiet_counts(t3);
    }
    assert(ends_line(t1));
    assert(ends_line(t2));
    assert(ends_line(t3));
    lemma_call_counts_concat(t1, t2);
    lemma_call_counts_concat(t1 + t2, t3);
}

proof fn lemma_call_line_counts(f: Features)
    ensures
        call_counts(text_if(has_backend(f), kernel_call_line())) == (
            0nat,
            0nat,
            0nat,
            0nat,
            if has_backend(f) {
                1nat
            } else {
                0nat
            },
        ),
        !has_backend(f) ==> kernel_free(text_if(has_backend(f), kernel_call_line())),
        ends_line(text_if(has_backend(f), kernel_call_line())),
{
    reveal_strlit("MPI_Init");
    reveal_strlit("Kokkos::initialize");
    reveal_strlit("Kokkos::finalize");
    reveal_strlit("MPI_Finalize");
    reveal_strlit("    run_kernel();");
    lemma_call_patterns();
    reveal_strlit("    run_kernel();\n");
    let x = text_if(has_backend(f), kernel_call_line());
    if has_backend(f) {
        let p5 = kernel_call_statement();
        assert(occurs_at(x, p5, 0)) by {
            assert(x.subrange(0, 17) =~= p5);
        }
        lemma_count_one_by4(x, p5, 2, 0);
        assert forall|j: int| !#[trigger] has4(x, j, '_', 'I', 'n', 'i') by {}
        assert forall|j: int| !#[trigger] has4(x, j, 's', ':', ':', 'i') by {}
        assert forall|j: int| !#[trigger] has4(x, j, 's', ':', ':', 'f') by {}
        assert forall|j: int| !#[trigger] has4(x, j, '_', 'F', 'i', 'n') by {}
        lemma_count_zero_by4(x, mpi_init_call(), 3);
        lemma_count_zero_by4(x, kokkos_init_call(), 5);
        lemma_count_zero_by4(x, kokkos_finalize_call(), 5);
        lemma_count_zero_by4(x, mpi_finalize_call(), 3);
    } else {
        assert(quiet(x));
        lemma_quiet_counts(x);
    }
}

/// How often each call stands in `main.cpp`.
proof fn lemma_main_cpp_counts(f: Features)
    ensures
        call_counts(spec_main_cpp(f)) == (
            if f.mpi {
                1nat
            } else {
                0nat
            },
            if f.kokkos {
                1nat
            } else {
                0nat
            },
            if f.kokkos {
                1nat
            } else {
                0nat
            },
            if f.mpi {
                1nat
            } else {
                0nat
            },
            if has_backend(f) {
                1nat
            } else {
                0nat
            },
        ),
        !has_backend(f) ==> count_occurrences(spec_main_cpp(f), kernel_name()) == 0,
{
    let c1 = main_includes(f);
    let c2 = kernel_declaration(f);
    let c3 = "\nint main(int argc, char* argv[]) {\n"@;
    let c4 = main_startup(f);
    let c5 = main_greeting(f);
    let c6 = text_if(has_backend(f), kernel_call_line());
    let c7 = main_shutdown(f);
    let c8 = "    return 0;\n"@ + "}\n"@;
    assert(spec_main_cpp(f) =~= c1 + c2 + c3 + c4 + c5 + c6 + c7 + c8);
    lemma_includes_quiet(f);
    lemma_declaration_quiet(f);
    lemma_frame_quiet();
    lemma_greeting_quiet(f);
    lemma_startup_counts(f);
    lemma_shutdown_counts(f);
    lemma_call_line_counts(f);
    lemma_quiet_counts(c1);
    lemma_quiet_counts(c2);
    lemma_quiet_counts(c3);
    lemma_quiet_counts(c5);
    lemma_quiet_counts(c8);
    lemma_call_counts_concat(c1, c2);
    lemma_call_counts_concat(c1 + c2, c3);
    lemma_call_counts_concat(c1 + c2 + c3, c4);
    lemma_call_counts_concat(c1 + c2 + c3 + c4, c5);
    lemma_call_counts_concat(c1 + c2 + c3 + c4 + c5, c6);
    lemma_call_counts_concat(c1 + c2 + c3 + c4 + c5 + c6, c7);
    lemma_call_counts_concat(c1 + c2 + c3 + c4 + c5 + c6 + c7, c8);
    if !has_backend(f) {
        assert(c2.len() == 0);
        assert(kernel_free(c2));
        lemma_kernel_free_count(c1);
        lemma_kernel_free_count(c2);
        lemma_kernel_free_count(c3);
        lemma_kernel_free_count(c4);
        lemma_kernel_free_count(c5);
        lemma_kernel_free_count(c6);
        lemma_kernel_free_count(c7);
        lemma_kernel_free_count(c8);
    }
}

/// `main.cpp` starts and stops MPI exactly when MPI is enabled, starts and
/// stops Kokkos exactly when Kokkos is enabled, each once, and calls the
/// kernel from `main` once exactly when CUDA or HIP is enabled.
pub proof fn lemma_main_cpp_calls(f: Features)
    ensures
        count_occurrences(spec_main_cpp(f), mpi_init_call()) == (if f.mpi { 1nat } else { 0nat }),
        count_occurrences(spec_main_cpp(f), mpi_finalize_call()) == (if f.mpi { 1nat } else { 0nat }),
        count_occurrences(spec_main_cpp(f), kokkos_init_call()) == (if f.kokkos { 1nat } else { 0nat }),
        count_occurrences(spec_main_cpp(f), kokkos_finalize_call()) == (if f.kokkos {
            1nat
        } else {
            0nat
        }),
        count_occurrences(spec_main_cpp(f), kernel_call_statement()) == (if f.cuda || f.hip {
            1nat
        } else {
            0nat
        }),
{
    lemma_main_cpp_counts(f);
}

/// With both MPI and Kokkos, `main.cpp` calls `MPI_Init`,
/// `Kokkos::initialize`, `Kokkos::finalize` and `MPI_Finalize` once each,
/// in this order: MPI is brought up first and torn down last.
pub proof fn lemma_main_cpp_lifecycle_order(f: Features)
    requires
        f.mpi,
        f.kokkos,
    ensures
        count_occurrences(spec_main_cpp(f), mpi_init_call()) == 1,
        count_occurrences(spec_main_cpp(f), kokkos_init_call()) == 1,
        count_occurrences(spec_main_cpp(f), kokkos_finalize_call()) == 1,
        count_occurrences(spec_main_cpp(f), mpi_finalize_call()) == 1,
        exists|i1: int, i2: int, i3: int, i4: int|
            i1 < i2 < i3 < i4 && occurs_at(spec_main_cpp(f), mpi_init_call(), i1) && occurs_at(
                spec_main_cpp(f),
                kokkos_init_call(),
                i2,
            ) && occurs_at(spec_main_cpp(f), kokkos_finalize_call(), i3) && occurs_at(
                spec_main_cpp(f),
                mpi_finalize_call(),
                i4,
            ),
{
    lemma_main_cpp_counts(f);
    reveal_strlit("MPI_Init");
    reveal_strlit("Kokkos::initialize");
    reveal_strlit("Kokkos::finalize");
    reveal_strlit("MPI_Finalize");
    reveal_strlit("\n");
    reveal_strlit("    MPI_Init(&argc, &argv);\n");
    reveal_strlit("    Kokkos::initialize(argc, argv);\n");
    reveal_strlit("    Kokkos::finalize();\n");
    reveal_strlit("    MPI_Finalize();\n");
    let text = spec_main_cpp(f);
    let a = main_includes(f) + kernel_declaration(f) + "\nint main(int argc, char* argv[]) {\n"@;
    let l1 = mpi_init_line();
    let b = "\n"@;
    let l2 = kokkos_init_line();
    let c = "\n"@ + main_greeting(f) + text_if(has_backend(f), kernel_call_line()) + "\n"@;
    let l3 = kokkos_finalize_line();
    let l4 = mpi_finalize_line();
    let e = "    return 0;\n"@ + "}\n"@;
    assert(text =~= a + l1 + b + l2 + c + l3 + l4 + e);
    let i1: int = a.len() as int + 4;
    let i2: int = a.len() as int + l1.len() + b.len() + 4;
    let i3: int = a.len() as int + l1.len() + b.len() + l2.len() + c.len() + 4;
    let i4: int = i3 + l3.len();
    assert(text.subrange(i1, i1 + 8) =~= mpi_init_call());
    assert(text.subrange(i2, i2 + 18) =~= kokkos_init_call());
    assert(text.subrange(i3, i3 + 16) =~= kokkos_finalize_call());
    assert(text.subrange(i4, i4 + 12) =~= mpi_finalize_call());
    assert(occurs_at(text, mpi_init_call(), i1));
    assert(occurs_at(text, kokkos_init_call(), i2));
    assert(occurs_at(text, kokkos_finalize_call(), i3));
    assert(occurs_at(text, mpi_finalize_call(), i4));
}

/// `main.cpp` calls the kernel from the body of `main` exactly once when a
/// GPU backend is enabled; without one it does not mention the kernel.
pub proof fn lemma_main_cpp_kernel_call(f: Features)
    ensures
        count_occurrences(spec_main_cpp(f), kernel_call_statement()) == (if has_backend(f) {
            1nat
        } else {
            0nat
        }),
        !has_backend(f) ==> !contains_text(spec_main_cpp(f), kernel_name()),
{
    lemma_main_cpp_counts(f);
    if !has_backend(f) {
        lemma_call_patterns();
        lemma_count_zero_not_contained(spec_main_cpp(f), kernel_name());
    }
}

/// The declaration of the kernel entry point.
pub open spec fn kernel_declaration_text() -> Seq<char> {
    "void run_kernel();"@
}

/// `main.cpp` declares `void run_kernel();` exactly when a GPU backend (CUDA
/// or HIP) is enabled, and then declares it before `int main(`.
pub proof fn lemma_main_cpp_declares_kernel(f: Features)
    ensures
        contains_text(spec_main_cpp(f), kernel_declaration_text()) <==> (f.cuda || f.hip),
        (f.cuda || f.hip) ==> exists|i: int, j: int|
            i < j && occurs_at(spec_main_cpp(f), kernel_declaration_text(), i) && occurs_at(
                spec_main_cpp(f),
                "int main("@,
                j,
            ),
{
    reveal_strlit("void run_kernel();");
    reveal_strlit("run_kernel");
    reveal_strlit("int main(");
    reveal_strlit(
        "\n// Defined in the GPU kernel source (kernel.cu / kernel.hip).\nvoid run_kernel();\n",
    );
    reveal_strlit("\nint main(int argc, char* argv[]) {\n");
    let text = spec_main_cpp(f);
    let inc = main_includes(f);
    let decl = kernel_declaration(f);
    let open = "\nint main(int argc, char* argv[]) {\n"@;
    let rest = main_startup(f) + main_greeting(f) + text_if(has_backend(f), kernel_call_line())
        + main_shutdown(f) + "    return 0;\n"@ + "}\n"@;
    assert(text =~= inc + decl + (open + rest));
    if f.cuda || f.hip {
        assert(decl.subrange(63, 81) =~= kernel_declaration_text());
        lemma_contains_within(inc, decl, open + rest, kernel_declaration_text(), 63);
        assert((open + rest).subrange(1, 10) =~= "int main("@);
        assert(occurs_at(open + rest, "int main("@, 1));
        lemma_contains_within(inc + decl, open + rest, Seq::<char>::empty(), "int main("@, 1);
        assert(text =~= inc + decl + (open + rest) + Seq::<char>::empty());
        let i: int = inc.len() as int + 63;
        let j: int = inc.len() as int + decl.len() + 1;
        assert(i < j);
        assert(occurs_at(text, kernel_declaration_text(), i));
        assert(occurs_at(text, "int main("@, j));
    } else {
        lemma_main_cpp_kernel_call(f);
        if contains_text(text, kernel_declaration_text()) {
            let k = choose|k: int| occurs_at(text, kernel_declaration_text(), k);
            assert(kernel_declaration_text().subrange(5, 15) =~= kernel_name());
            lemma_contains_trans(text, kernel_declaration_text(), kernel_name(), k, 5);
        }
    }
}

// ---------------------------------------------------------------------------
// The files of the project's source tree
// ---------------------------------------------------------------------------

/// The kernel source of a backend; it defines `run_kernel()`.
pub open spec fn kernel_source_text(b: Backend) -> Seq<char> {
    match b {
        Backend::Cuda => "#include <cstdio>\n\n__global__ void hello_kernel() {\n    printf(\"Hello from GPU thread %d\\n\", threadIdx.x);\n}\n\nvoid run_kernel() {\n    hello_kernel<<<1, 4>>>();\n    cudaDeviceSynchronize();\n}\n"@,
        Backend::Hip => "#include <hip/hip_runtime.h>\n#include <cstdio>\n\n__global__ void hello_kernel() {\n    printf(\"Hello from GPU thread %d\\n\", threadIdx.x);\n}\n\nvoid run_kernel() {\n    hipLaunchKernelGGL(hello_kernel, dim3(1), dim3(4), 0, 0);\n    (void)hipDeviceSynchronize();\n}\n"@,
    }
}

/// The kernel source written for a backend.
pub fn kernel_source(b: Backend) -> (s: &'static str)
    ensures
        s@ == kernel_source_text(b),
{
    match b {
        Backend::Cuda => "#include <cstdio>\n\n__global__ void hello_kernel() {\n    printf(\"Hello from GPU thread %d\\n\", threadIdx.x);\n}\n\nvoid run_kernel() {\n    hello_kernel<<<1, 4>>>();\n    cudaDeviceSynchronize();\n}\n",
        Backend::Hip => "#include <hip/hip_runtime.h>\n#include <cstdio>\n\n__global__ void hello_kernel() {\n    printf(\"Hello from GPU thread %d\\n\", threadIdx.x);\n}\n\nvoid run_kernel() {\n    hipLaunchKernelGGL(hello_kernel, dim3(1), dim3(4), 0, 0);\n    (void)hipDeviceSynchronize();\n}\n",
    }
}

/// The `.gitignore` of a generated project.
pub open spec fn default_gitignore() -> Seq<char> {
    "build/\n.cache/\ncompile_commands.json\n"@
}

/// The `.gitignore` written into a generated project.
pub fn gitignore_content() -> (s: &'static str)
    ensures
        s@ == default_gitignore(),
{
    "build/\n.cache/\ncompile_commands.json\n"
}

/// The path of a backend's kernel file, relative to the project directory.
pub open spec fn kernel_path(b: Backend) -> Seq<char> {
    "src/kernel."@ + spec_kernel_ext(b)
}

/// A file to write, relative to the project directory.
pub struct SourceFile {
    pub path: String,
    pub content: String,
}

impl View for SourceFile {
    type V = (Seq<char>, Seq<char>);

    open spec fn view(&self) -> (Seq<char>, Seq<char>) {
        (self.path@, self.content@)
    }
}

/// The source tree of a project: `src/main.cpp`, then one kernel file per
/// enabled GPU backend, CUDA before HIP.
pub open spec fn spec_source_files(f: Features) -> Seq<(Seq<char>, Seq<char>)> {
    seq![("src/main.cpp"@, spec_main_cpp(f))] + f.spec_backends().map_values(
        |b: Backend| (kernel_path(b), kernel_source_text(b)),
    )
}

/// The files of the source tree that `features` implies.
pub fn source_files(features: &Features) -> (files: Vec<SourceFile>)
    ensures
        files@.map_values(|x: SourceFile| x@) == spec_source_files(*features),
{
    let mut files: Vec<SourceFile> = Vec::new();
    files.push(
        SourceFile {
            path: String::from_str("src/main.cpp"),
            content: render_main_cpp(features),
        },
    );
    let backends = features.backends();
    let ghost expected = spec_source_files(*features);
    let n = backends.len();
    let mut i: usize = 0;
    while i < n
        invariant
            n == backends@.len(),
            backends@ == features.spec_backends(),
            expected == spec_source_files(*features),
            expected.len() == n + 1,
            0 <= i <= n,
            files@.len() == i + 1,
            forall|j: int| 0 <= j <= i ==> (#[trigger] files@[j])@ == expected[j],
        decreases n - i,
    {
        let b = backends[i];
        let mut path = String::from_str("src/kernel.");
        path.append(b.kernel_ext());
        files.push(SourceFile { path, content: String::from_str(kernel_source(b)) });
        i = i + 1;
    }
    assert(files@.map_values(|x: SourceFile| x@) =~= expected);
    files
}

/// Each kernel source uses `__global__` and defines `void run_kernel()`.
pub proof fn lemma_kernel_defines_run_kernel(b: Backend)
    ensures
        contains_text(kernel_source_text(b), "__global__"@),
        contains_text(kernel_source_text(b), "void run_kernel() {"@),
{
    reveal_strlit("__global__");
    reveal_strlit("void run_kernel() {");
    reveal_strlit("#include <cstdio>\n\n__global__ void hello_kernel() {\n    printf(\"Hello from GPU thread %d\\n\", threadIdx.x);\n}\n\nvoid run_kernel() {\n    hello_kernel<<<1, 4>>>();\n    cudaDeviceSynchronize();\n}\n");
    reveal_strlit("#include <hip/hip_runtime.h>\n#include <cstdio>\n\n__global__ void hello_kernel() {\n    printf(\"Hello from GPU thread %d\\n\", threadIdx.x);\n}\n\nvoid run_kernel() {\n    hipLaunchKernelGGL(hello_kernel, dim3(1), dim3(4), 0, 0);\n    (void)hipDeviceSynchronize();\n}\n");
    let s = kernel_source_text(b);
    match b {
        Backend::Cuda => {
            assert(s.subrange(19, 29) =~= "__global__"@);
            assert(occurs_at(s, "__global__"@, 19));
            assert(s.subrange(110, 129) =~= "void run_kernel() {"@);
            assert(occurs_at(s, "void run_kernel() {"@, 110));
        },
        Backend::Hip => {
            assert(s.subrange(48, 58) =~= "__global__"@);
            assert(occurs_at(s, "__global__"@, 48));
            assert(s.subrange(139, 158) =~= "void run_kernel() {"@);
            assert(occurs_at(s, "void run_kernel() {"@, 139));
        },
    }
}

/// Every enabled GPU backend adds its own kernel file, which defines
/// `run_kernel()`; besides them the tree holds `src/main.cpp` only.
pub proof fn lemma_source_tree(f: Features)
    ensures
        spec_source_files(f).len() == 1 + f.spec_backends().len(),
        spec_source_files(f)[0] == ("src/main.cpp"@, spec_main_cpp(f)),
        forall|b: Backend|
            f.spec_has(b) ==> exists|i: int|
                1 <= i < spec_source_files(f).len() && #[trigger] spec_source_files(f)[i] == (
                    kernel_path(b),
                    kernel_source_text(b),
                ),
        forall|b: Backend| #[trigger] f.spec_has(b) ==> contains_text(kernel_source_text(b), "void run_kernel() {"@),
{
    let files = spec_source_files(f);
    assert forall|b: Backend| f.spec_has(b) implies exists|i: int|
        1 <= i < files.len() && #[trigger] files[i] == (kernel_path(b), kernel_source_text(b)) by {
        let bs = f.spec_backends();
        if b == Backend::Cuda {
            assert(bs[0] == b);
            assert(files[1] == (kernel_path(b), kernel_source_text(b)));
        } else if f.cuda {
            assert(bs[1] == b);
            assert(files[2] == (kernel_path(b), kernel_source_text(b)));
        } else {
            assert(bs[0] == b);
            assert(files[1] == (kernel_path(b), kernel_source_text(b)));
        }
    }
    assert forall|b: Backend| #[trigger] f.spec_has(b) implies contains_text(kernel_source_text(b), "void run_kernel() {"@) by {
        lemma_kernel_defines_run_kernel(b);
    }
}

} // verus!
