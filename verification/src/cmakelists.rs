//! Programmatic generation of a project's `CMakeLists.txt`.
//!
//! The capability combinations (`mpi` x `kokkos` x `cuda` x `hip`) do not
//! map onto a fixed set of static templates, so the file is composed section
//! by section from the requested [`Features`].
use vstd::prelude::*;

use crate::features::{
    Backend, Features, Target, TargetSpec, lemma_targets_by_backends, spec_cmake_lang, targets_view,
};
use crate::occurrences::{
    contains_text, count_occurrences, ends_line, has4, lemma_contains_trans, lemma_contains_within,
    lemma_occurs_extend_left, lemma_occurs_extend_right,
    lemma_count_concat_lines, lemma_count_one_by4, lemma_count_zero_by4,
    lemma_count_zero_not_contained, occurs_at, single_line,
};
use crate::{is_project_name_char, lemma_decimal_reads_back, spec_parse_int, valid_project_name};
use crate::text::{
    text_if, append_int_decimal, append_nat_decimal, int_decimal, nat_decimal,
    lemma_int_decimal_chars, lemma_nat_decimal_digits,
};

verus! {

/// The larger of two integers.
pub open spec fn max_int(a: int, b: int) -> int {
    if a >= b {
        a
    } else {
        b
    }
}

/// The CMake 3.x minor version that a feature needs when enabled: 3.20 is
/// enough for plain C++ and MPI.
pub open spec fn required_minor(enabled: bool, minor: int) -> int {
    if enabled {
        minor
    } else {
        20
    }
}

/// The minor version of the minimum CMake release: the largest requirement
/// of the enabled features. HIP as a first-class language needs 3.21,
/// Kokkos 3.22, and CUDA's `native` architecture detection 3.24.
pub open spec fn spec_min_cmake_minor(f: Features) -> int {
    max_int(
        max_int(max_int(20, required_minor(f.hip, 21)), required_minor(f.kokkos, 22)),
        required_minor(f.cuda, 24),
    )
}

/// The `LANGUAGES` after `CXX`: each enabled backend's language, in order.
pub open spec fn backend_languages(bs: Seq<Backend>) -> Seq<char>
    decreases bs.len(),
{
    if bs.len() == 0 {
        Seq::empty()
    } else {
        backend_languages(bs.drop_last()) + " "@ + spec_cmake_lang(bs.last())
    }
}

/// The sources compiled into a target with the given backend.
pub open spec fn target_sources(backend: Option<Backend>) -> Seq<char> {
    match backend {
        None => "${CXX_SOURCES}"@,
        Some(Backend::Cuda) => "${CXX_SOURCES} ${CUDA_SOURCES}"@,
        Some(Backend::Hip) => "${CXX_SOURCES} ${HIP_SOURCES}"@,
    }
}

/// The section that declares, links and installs one executable.
pub open spec fn target_block(t: TargetSpec, kokkos: bool) -> Seq<char> {
    "\n"@ + "add_executable("@ + t.name + " "@ + target_sources(t.backend) + ")\n"@ + text_if(
        t.mpi,
        "target_link_libraries("@ + t.name + " PRIVATE MPI::MPI_CXX)\n"@,
    ) + text_if(kokkos, "target_link_libraries("@ + t.name + " PRIVATE Kokkos::kokkos)\n"@)
        + "install(TARGETS "@ + t.name + ")\n"@
}

/// The sections of all executables, in order.
pub open spec fn target_blocks(ts: Seq<TargetSpec>, kokkos: bool) -> Seq<char>
    decreases ts.len(),
{
    if ts.len() == 0 {
        Seq::empty()
    } else {
        target_blocks(ts.drop_last(), kokkos) + target_block(ts.last(), kokkos)
    }
}

/// The `cmake_minimum_required` and `project` lines.
pub open spec fn cmake_header(name: Seq<char>, f: Features) -> Seq<char> {
    "cmake_minimum_required(VERSION 3."@ + nat_decimal(spec_min_cmake_minor(f) as nat)
        + ".0)\n"@ + "project("@ + name + " VERSION 0.0.0 LANGUAGES CXX"@ + backend_languages(
        f.spec_backends(),
    ) + ")\n\n"@
}

/// The C++ standard settings.
pub open spec fn cmake_standard(cxx_std: int) -> Seq<char> {
    "set(CMAKE_CXX_STANDARD "@ + int_decimal(cxx_std) + ")\n"@
        + "set(CMAKE_CXX_STANDARD_REQUIRED ON)\n"@
}

/// The GPU architecture settings of the enabled backends.
pub open spec fn cmake_architectures(f: Features) -> Seq<char> {
    text_if(
        f.cuda,
        "\n# Detect the architecture(s) of the GPU(s) present at configure time.\n"@
            + "set(CMAKE_CUDA_ARCHITECTURES native)\n"@,
    ) + text_if(
        f.hip,
        "\n# Set to your GPU's architecture (e.g. gfx1100).\n"@
            + "set(CMAKE_HIP_ARCHITECTURES gfx906)\n"@,
    )
}

/// The packages the project depends on.
pub open spec fn cmake_packages(f: Features) -> Seq<char> {
    text_if(f.mpi, "\nfind_package(MPI REQUIRED)\n"@) + text_if(
        f.kokkos,
        "\nfind_package(Kokkos REQUIRED)\n"@,
    )
}

/// One source glob per language.
pub open spec fn cmake_globs(f: Features) -> Seq<char> {
    "\nfile(GLOB_RECURSE CXX_SOURCES CONFIGURE_DEPENDS ./src/*.cpp)\n"@ + text_if(
        f.cuda,
        "file(GLOB_RECURSE CUDA_SOURCES CONFIGURE_DEPENDS ./src/*.cu)\n"@,
    ) + text_if(f.hip, "file(GLOB_RECURSE HIP_SOURCES CONFIGURE_DEPENDS ./src/*.hip)\n"@)
}

/// The whole `CMakeLists.txt` of a project.
pub open spec fn spec_render(name: Seq<char>, cxx_std: int, f: Features) -> Seq<char> {
    cmake_header(name, f) + cmake_standard(cxx_std) + cmake_architectures(f) + cmake_packages(f)
        + cmake_globs(f) + target_blocks(f.spec_targets(name), f.kokkos)
}

fn target_sources_str(backend: Option<Backend>) -> (s: &'static str)
    ensures
        s@ == target_sources(backend),
{
    match backend {
        None => "${CXX_SOURCES}",
        Some(Backend::Cuda) => "${CXX_SOURCES} ${CUDA_SOURCES}",
        Some(Backend::Hip) => "${CXX_SOURCES} ${HIP_SOURCES}",
    }
}

fn append_target_block(out: &mut String, t: &Target, kokkos: bool)
    ensures
        final(out)@ == old(out)@ + target_block(t@, kokkos),
{
    let ghost start = out@;
    out.append("\n");
    out.append("add_executable(");
    out.append(t.name.as_str());
    out.append(" ");
    out.append(target_sources_str(t.backend));
    out.append(")\n");
    if t.mpi {
        out.append("target_link_libraries(");
        out.append(t.name.as_str());
        out.append(" PRIVATE MPI::MPI_CXX)\n");
    }
    if kokkos {
        out.append("target_link_libraries(");
        out.append(t.name.as_str());
        out.append(" PRIVATE Kokkos::kokkos)\n");
    }
    out.append("install(TARGETS ");
    out.append(t.name.as_str());
    out.append(")\n");
    assert(out@ =~= start + target_block(t@, kokkos));
}

/// The minor version of the minimum CMake release the features need.
fn min_cmake_minor(features: &Features) -> (m: u64)
    ensures
        m == spec_min_cmake_minor(*features),
{
    let mut m: u64 = 20;
    if features.hip && m < 21 {
        m = 21;
    }
    if features.kokkos && m < 22 {
        m = 22;
    }
    if features.cuda && m < 24 {
        m = 24;
    }
    m
}

fn append_header(out: &mut String, project_name: &str, features: &Features)
    ensures
        final(out)@ == old(out)@ + cmake_header(project_name@, *features),
{
    let ghost start = out@;
    out.append("cmake_minimum_required(VERSION 3.");
    append_nat_decimal(out, min_cmake_minor(features));
    out.append(".0)\n");

    out.append("project(");
    out.append(project_name);
    out.append(" VERSION 0.0.0 LANGUAGES CXX");
    let backends = features.backends();
    let ghost before_langs = out@;
    let nb = backends.len();
    let mut i: usize = 0;
    while i < nb
        invariant
            nb == backends@.len(),
            0 <= i <= nb,
            out@ == before_langs + backend_languages(backends@.take(i as int)),
        decreases nb - i,
    {
        out.append(" ");
        out.append(backends[i].cmake_lang());
        assert(backends@.take(i + 1).drop_last() =~= backends@.take(i as int));
        i = i + 1;
    }
    assert(backends@.take(nb as int) =~= backends@);
    out.append(")\n\n");
    assert(out@ =~= start + cmake_header(project_name@, *features));
}

fn append_settings(out: &mut String, cxx_std: i32, features: &Features)
    ensures
        final(out)@ == old(out)@ + cmake_standard(cxx_std as int) + cmake_architectures(*features)
            + cmake_packages(*features) + cmake_globs(*features),
{
    let f = *features;
    let ghost start = out@;
    out.append("set(CMAKE_CXX_STANDARD ");
    append_int_decimal(out, cxx_std);
    out.append(")\n");
    out.append("set(CMAKE_CXX_STANDARD_REQUIRED ON)\n");
    assert(out@ =~= start + cmake_standard(cxx_std as int));
    let ghost after_standard = out@;

    if features.has(Backend::Cuda) {
        out.append("\n# Detect the architecture(s) of the GPU(s) present at configure time.\n");
        out.append("set(CMAKE_CUDA_ARCHITECTURES native)\n");
    }
    if features.has(Backend::Hip) {
        out.append("\n# Set to your GPU's architecture (e.g. gfx1100).\n");
        out.append("set(CMAKE_HIP_ARCHITECTURES gfx906)\n");
    }
    assert(out@ =~= after_standard + cmake_architectures(f));
    let ghost after_arch = out@;

    if features.mpi {
        out.append("\nfind_package(MPI REQUIRED)\n");
    }
    if features.kokkos {
        out.append("\nfind_package(Kokkos REQUIRED)\n");
    }
    assert(out@ =~= after_arch + cmake_packages(f));
    let ghost after_packages = out@;

    // Glob each language's sources separately so targets can pick the kernel
    // flavour they need while sharing the C++ entry point.
    out.append("\nfile(GLOB_RECURSE CXX_SOURCES CONFIGURE_DEPENDS ./src/*.cpp)\n");
    if features.has(Backend::Cuda) {
        out.append("file(GLOB_RECURSE CUDA_SOURCES CONFIGURE_DEPENDS ./src/*.cu)\n");
    }
    if features.has(Backend::Hip) {
        out.append("file(GLOB_RECURSE HIP_SOURCES CONFIGURE_DEPENDS ./src/*.hip)\n");
    }
    assert(out@ =~= after_packages + cmake_globs(f));
}

fn append_targets(out: &mut String, project_name: &str, features: &Features)
    ensures
        final(out)@ == old(out)@ + target_blocks(
            features.spec_targets(project_name@),
            features.kokkos,
        ),
{
    let ghost before_targets = out@;
    let targets = features.targets(project_name);
    let ghost tv = targets_view(targets@);
    let nt = targets.len();
    let mut j: usize = 0;
    while j < nt
        invariant
            nt == targets@.len(),
            tv == targets_view(targets@),
            0 <= j <= nt,
            out@ == before_targets + target_blocks(tv.take(j as int), features.kokkos),
        decreases nt - j,
    {
        let ghost prev = out@;
        append_target_block(out, &targets[j], features.kokkos);
        proof {
            let next = tv.take(j + 1);
            assert(next.drop_last() =~= tv.take(j as int));
            assert(next.last() == targets@[j as int]@);
            assert(target_blocks(next, features.kokkos) == target_blocks(
                tv.take(j as int),
                features.kokkos,
            ) + target_block(targets@[j as int]@, features.kokkos));
            assert(out@ =~= before_targets + target_blocks(next, features.kokkos));
        }
        j = j + 1;
    }
    assert(tv.take(nt as int) =~= tv);
}

/// Render the full `CMakeLists.txt` contents for a project.
pub fn render(project_name: &str, cxx_std: i32, features: &Features) -> (out: String)
    ensures
        out@ == spec_render(project_name@, cxx_std as int, *features),
{
    let mut out = String::new();
    append_header(&mut out, project_name, features);
    append_settings(&mut out, cxx_std, features);
    append_targets(&mut out, project_name, features);
    assert(out@ =~= spec_render(project_name@, cxx_std as int, *features));
    out
}

/// The minimum CMake release is the least one that every enabled feature
/// accepts: 3.20 for plain C++ or MPI, at least 3.21 with HIP, 3.22 with
/// Kokkos and 3.24 with CUDA, and exactly one of these.
pub proof fn lemma_min_cmake_version(f: Features)
    ensures
        spec_min_cmake_minor(f) >= 20,
        f.hip ==> spec_min_cmake_minor(f) >= 21,
        f.kokkos ==> spec_min_cmake_minor(f) >= 22,
        f.cuda ==> spec_min_cmake_minor(f) >= 24,
        spec_min_cmake_minor(f) == 20 || (f.hip && spec_min_cmake_minor(f) == 21) || (f.kokkos
            && spec_min_cmake_minor(f) == 22) || (f.cuda && spec_min_cmake_minor(f) == 24),
{
}


// ---------------------------------------------------------------------------
// One block per target
// ---------------------------------------------------------------------------

/// The text that opens the declaration of an executable.
pub open spec fn add_executable_open() -> Seq<char> {
    "add_executable("@
}

/// The text that links MPI into an executable.
pub open spec fn mpi_link_text() -> Seq<char> {
    "MPI::"@
}

/// The line that declares a target's executable.
pub open spec fn add_executable_line(t: TargetSpec) -> Seq<char> {
    "add_executable("@ + t.name + " "@ + target_sources(t.backend) + ")\n"@
}

/// The line that installs a target's executable.
pub open spec fn install_line(t: TargetSpec) -> Seq<char> {
    "install(TARGETS "@ + t.name + ")\n"@
}

/// The MPI link of a target.
pub open spec fn mpi_link_of(t: TargetSpec) -> Seq<char> {
    "target_link_libraries("@ + t.name + " PRIVATE MPI::MPI_CXX)"@
}

/// A name made of project-name characters only.
pub open spec fn plain_name(s: Seq<char>) -> bool {
    forall|k: int| 0 <= k < s.len() ==> is_project_name_char(#[trigger] s[k])
}

proof fn lemma_single_line_patterns()
    ensures
        single_line(add_executable_open()),
        single_line(mpi_link_text()),
        add_executable_open().len() == 15,
        add_executable_open()[11] == 'b',
        add_executable_open()[12] == 'l',
        add_executable_open()[13] == 'e',
        add_executable_open()[14] == '(',
        mpi_link_text().len() == 5,
        mpi_link_text()[1] == 'P',
        mpi_link_text()[2] == 'I',
        mpi_link_text()[3] == ':',
        mpi_link_text()[4] == ':',
{
    reveal_strlit("add_executable(");
    reveal_strlit("MPI::");
}

proof fn lemma_target_sources_chars(b: Option<Backend>)
    ensures
        forall|k: int|
            0 <= k < target_sources(b).len() ==> #[trigger] target_sources(b)[k] != '('
                && target_sources(b)[k] != ':' && target_sources(b)[k] != '\n',
{
    reveal_strlit("${CXX_SOURCES}");
    reveal_strlit("${CXX_SOURCES} ${CUDA_SOURCES}");
    reveal_strlit("${CXX_SOURCES} ${HIP_SOURCES}");
}

proof fn lemma_add_line_count(t: TargetSpec)
    requires
        plain_name(t.name),
    ensures
        count_occurrences(add_executable_line(t), add_executable_open()) == 1,
        count_occurrences(add_executable_line(t), mpi_link_text()) == 0,
        ends_line(add_executable_line(t)),
{
    lemma_single_line_patterns();
    lemma_target_sources_chars(t.backend);
    reveal_strlit("add_executable(");
    reveal_strlit(" ");
    reveal_strlit(")\n");
    let p = add_executable_open();
    let q = mpi_link_text();
    let l1 = add_executable_line(t);
    assert(occurs_at(l1, p, 0)) by {
        assert(l1.subrange(0, 15) =~= p);
    }
    assert forall|j: int| j != 11 implies !#[trigger] has4(l1, j, p[11], p[12], p[13], p[14]) by {
        if has4(l1, j, p[11], p[12], p[13], p[14]) {
            assert(l1[j + 3] == '(');
        }
    }
    lemma_count_one_by4(l1, p, 11, 0);
    assert forall|j: int| !#[trigger] has4(l1, j, q[1], q[2], q[3], q[4]) by {
        if has4(l1, j, q[1], q[2], q[3], q[4]) {
            assert(l1[j + 2] == ':');
        }
    }
    lemma_count_zero_by4(l1, q, 1);
}

proof fn lemma_mpi_line_count(n: Seq<char>)
    requires
        plain_name(n),
    ensures
        count_occurrences("target_link_libraries("@ + n + " PRIVATE MPI::MPI_CXX)\n"@, add_executable_open())
            == 0,
        ends_line("target_link_libraries("@ + n + " PRIVATE MPI::MPI_CXX)\n"@),
{
    lemma_single_line_patterns();
    reveal_strlit("target_link_libraries(");
    reveal_strlit(" PRIVATE MPI::MPI_CXX)\n");
    let p = add_executable_open();
    let x = "target_link_libraries("@ + n + " PRIVATE MPI::MPI_CXX)\n"@;
    assert forall|j: int| !#[trigger] has4(x, j, p[11], p[12], p[13], p[14]) by {
        if has4(x, j, p[11], p[12], p[13], p[14]) {
            assert(x[j + 3] == '(');
            assert(x[j] == 'b');
        }
    }
    lemma_count_zero_by4(x, p, 11);
}

proof fn lemma_kokkos_line_count(n: Seq<char>)
    requires
        plain_name(n),
    ensures
        count_occurrences(
            "target_link_libraries("@ + n + " PRIVATE Kokkos::kokkos)\n"@,
            add_executable_open(),
        ) == 0,
        count_occurrences("target_link_libraries("@ + n + " PRIVATE Kokkos::kokkos)\n"@, mpi_link_text())
            == 0,
        ends_line("target_link_libraries("@ + n + " PRIVATE Kokkos::kokkos)\n"@),
{
    lemma_single_line_patterns();
    reveal_strlit("target_link_libraries(");
    reveal_strlit(" PRIVATE Kokkos::kokkos)\n");
    let p = add_executable_open();
    let q = mpi_link_text();
    let x = "target_link_libraries("@ + n + " PRIVATE Kokkos::kokkos)\n"@;
    assert forall|j: int| !#[trigger] has4(x, j, p[11], p[12], p[13], p[14]) by {
        if has4(x, j, p[11], p[12], p[13], p[14]) {
            assert(x[j + 3] == '(');
            assert(x[j] == 'b');
        }
    }
    lemma_count_zero_by4(x, p, 11);
    assert forall|j: int| !#[trigger] has4(x, j, q[1], q[2], q[3], q[4]) by {
        if has4(x, j, q[1], q[2], q[3], q[4]) {
            assert(x[j + 2] == ':');
            assert(x[j + 1] == 'I');
        }
    }
    lemma_count_zero_by4(x, q, 1);
}

proof fn lemma_install_line_count(t: TargetSpec)
    requires
        plain_name(t.name),
    ensures
        count_occurrences(install_line(t), add_executable_open()) == 0,
        count_occurrences(install_line(t), mpi_link_text()) == 0,
        ends_line(install_line(t)),
{
    reveal_strlit("install(TARGETS ");
    reveal_strlit(")\n");
    let x = install_line(t);
    assert forall|j: int| !#[trigger] has4(x, j, 'b', 'l', 'e', '(') by {
        if has4(x, j, 'b', 'l', 'e', '(') {
            assert(x[j + 3] == '(');
        }
    }
    lemma_clean_line(x);
}

/// The block of a target declares one executable and, without MPI, links
/// no MPI.
proof fn lemma_block_counts(t: TargetSpec, kokkos: bool)
    requires
        plain_name(t.name),
    ensures
        count_occurrences(target_block(t, kokkos), add_executable_open()) == 1,
        !t.mpi ==> count_occurrences(target_block(t, kokkos), mpi_link_text()) == 0,
        ends_line(target_block(t, kokkos)),
{
    lemma_single_line_patterns();
    reveal_strlit("\n");
    let p = add_executable_open();
    let q = mpi_link_text();
    let n = t.name;
    let l0 = "\n"@;
    let l1 = add_executable_line(t);
    let l2 = text_if(t.mpi, "target_link_libraries("@ + n + " PRIVATE MPI::MPI_CXX)\n"@);
    let l3 = text_if(kokkos, "target_link_libraries("@ + n + " PRIVATE Kokkos::kokkos)\n"@);
    let l4 = install_line(t);
    assert(target_block(t, kokkos) =~= l0 + l1 + l2 + l3 + l4);
    lemma_add_line_count(t);
    lemma_mpi_line_count(n);
    lemma_kokkos_line_count(n);
    lemma_install_line_count(t);
    assert(count_occurrences(l0, p) == 0 && count_occurrences(l0, q) == 0 && ends_line(l0));
    lemma_concat_zero_ends(l0, l1);
    lemma_count_concat_lines(l0, l1, p);
    lemma_count_concat_lines(l0, l1, q);
    let x1 = l0 + l1;
    lemma_count_concat_lines(x1, l2, p);
    if t.mpi {
        lemma_concat_zero_ends(x1, l2);
    } else {
        assert(x1 + l2 =~= x1);
        lemma_count_concat_lines(x1, l2, q);
    }
    let x2 = x1 + l2;
    lemma_count_concat_lines(x2, l3, p);
    lemma_count_concat_lines(x2, l3, q);
    if kokkos {
        lemma_concat_zero_ends(x2, l3);
    } else {
        assert(x2 + l3 =~= x2);
    }
    let x3 = x2 + l3;
    lemma_count_concat_lines(x3, l4, p);
    lemma_count_concat_lines(x3, l4, q);
    lemma_concat_zero_ends(x3, l4);
}

proof fn lemma_backend_languages_chars(bs: Seq<Backend>)
    ensures
        forall|k: int|
            0 <= k < backend_languages(bs).len() ==> #[trigger] backend_languages(bs)[k] == ' '
                || 'A' <= backend_languages(bs)[k] <= 'Z',
    decreases bs.len(),
{
    reveal_strlit(" ");
    reveal_strlit("CUDA");
    reveal_strlit("HIP");
    if bs.len() > 0 {
        lemma_backend_languages_chars(bs.drop_last());
        let a = backend_languages(bs.drop_last());
        let b = " "@ + spec_cmake_lang(bs.last());
        assert(backend_languages(bs) =~= a + b);
        assert forall|k: int| 0 <= k < backend_languages(bs).len() implies #[trigger] backend_languages(
            bs,
        )[k] == ' ' || 'A' <= backend_languages(bs)[k] <= 'Z' by {
            if k < a.len() {
                assert(backend_languages(bs)[k] == a[k]);
            } else {
                assert(backend_languages(bs)[k] == b[k - a.len()]);
            }
        }
    }
}

/// Everything before the targets: the header and the settings.
pub open spec fn cmake_preamble(name: Seq<char>, cxx_std: int, f: Features) -> Seq<char> {
    cmake_header(name, f) + cmake_standard(cxx_std) + cmake_architectures(f) + cmake_packages(f)
        + cmake_globs(f)
}

/// A line with no `ble(` and no `:` declares no executable and links no MPI.
proof fn lemma_clean_line(x: Seq<char>)
    requires
        ends_line(x),
        forall|j: int| !#[trigger] has4(x, j, 'b', 'l', 'e', '('),
        forall|j: int| 0 <= j < x.len() ==> #[trigger] x[j] != ':',
    ensures
        count_occurrences(x, add_executable_open()) == 0,
        count_occurrences(x, mpi_link_text()) == 0,
{
    lemma_single_line_patterns();
    let p = add_executable_open();
    let q = mpi_link_text();
    lemma_count_zero_by4(x, p, 11);
    assert forall|j: int| !#[trigger] has4(x, j, q[1], q[2], q[3], q[4]) by {
        if has4(x, j, q[1], q[2], q[3], q[4]) {
            assert(x[j + 2] == ':');
        }
    }
    lemma_count_zero_by4(x, q, 1);
}

proof fn lemma_version_line_clean(m: nat)
    ensures
        ends_line("cmake_minimum_required(VERSION 3."@ + nat_decimal(m) + ".0)\n"@),
        count_occurrences(
            "cmake_minimum_required(VERSION 3."@ + nat_decimal(m) + ".0)\n"@,
            add_executable_open(),
        ) == 0,
        count_occurrences("cmake_minimum_required(VERSION 3."@ + nat_decimal(m) + ".0)\n"@, mpi_link_text())
            == 0,
{
    lemma_nat_decimal_digits(m);
    reveal_strlit("cmake_minimum_required(VERSION 3.");
    reveal_strlit(".0)\n");
    let x = "cmake_minimum_required(VERSION 3."@ + nat_decimal(m) + ".0)\n"@;
    assert forall|j: int| !#[trigger] has4(x, j, 'b', 'l', 'e', '(') by {
        if has4(x, j, 'b', 'l', 'e', '(') {
            assert(x[j + 3] == '(');
        }
    }
    lemma_clean_line(x);
}

proof fn lemma_project_line_clean(name: Seq<char>, bs: Seq<Backend>)
    requires
        valid_project_name(name),
    ensures
        ends_line("project("@ + name + " VERSION 0.0.0 LANGUAGES CXX"@ + backend_languages(bs) + ")\n\n"@),
        count_occurrences(
            "project("@ + name + " VERSION 0.0.0 LANGUAGES CXX"@ + backend_languages(bs) + ")\n\n"@,
            add_executable_open(),
        ) == 0,
        count_occurrences(
            "project("@ + name + " VERSION 0.0.0 LANGUAGES CXX"@ + backend_languages(bs) + ")\n\n"@,
            mpi_link_text(),
        ) == 0,
{
    lemma_backend_languages_chars(bs);
    reveal_strlit("project(");
    reveal_strlit(" VERSION 0.0.0 LANGUAGES CXX");
    reveal_strlit(")\n\n");
    let x = "project("@ + name + " VERSION 0.0.0 LANGUAGES CXX"@ + backend_languages(bs) + ")\n\n"@;
    assert forall|j: int| !#[trigger] has4(x, j, 'b', 'l', 'e', '(') by {
        if has4(x, j, 'b', 'l', 'e', '(') {
            assert(x[j + 3] == '(');
        }
    }
    lemma_clean_line(x);
}

proof fn lemma_standard_line_clean(cxx_std: int)
    ensures
        ends_line("set(CMAKE_CXX_STANDARD "@ + int_decimal(cxx_std) + ")\n"@),
        count_occurrences("set(CMAKE_CXX_STANDARD "@ + int_decimal(cxx_std) + ")\n"@, add_executable_open())
            == 0,
        count_occurrences("set(CMAKE_CXX_STANDARD "@ + int_decimal(cxx_std) + ")\n"@, mpi_link_text())
            == 0,
{
    lemma_int_decimal_chars(cxx_std);
    reveal_strlit("set(CMAKE_CXX_STANDARD ");
    reveal_strlit(")\n");
    let x = "set(CMAKE_CXX_STANDARD "@ + int_decimal(cxx_std) + ")\n"@;
    assert forall|j: int| !#[trigger] has4(x, j, 'b', 'l', 'e', '(') by {
        if has4(x, j, 'b', 'l', 'e', '(') {
            assert(x[j + 3] == '(');
        }
    }
    lemma_clean_line(x);
}

proof fn lemma_literal_clean(x: Seq<char>)
    requires
        ends_line(x),
        forall|j: int| 0 <= j < x.len() ==> #[trigger] x[j] != ':',
        forall|j: int| 0 <= j < x.len() && #[trigger] x[j] == '(' ==> j < 3 || x[j - 1] != 'e' || x[j - 2] != 'l'
            || x[j - 3] != 'b',
    ensures
        count_occurrences(x, add_executable_open()) == 0,
        count_occurrences(x, mpi_link_text()) == 0,
{
    assert forall|j: int| !#[trigger] has4(x, j, 'b', 'l', 'e', '(') by {
        if has4(x, j, 'b', 'l', 'e', '(') {
            assert(x[j + 3] == '(');
        }
    }
    lemma_clean_line(x);
}

proof fn lemma_settings_clean(f: Features)
    ensures
        ends_line("set(CMAKE_CXX_STANDARD_REQUIRED ON)\n"@),
        count_occurrences("set(CMAKE_CXX_STANDARD_REQUIRED ON)\n"@, add_executable_open()) == 0,
        count_occurrences("set(CMAKE_CXX_STANDARD_REQUIRED ON)\n"@, mpi_link_text()) == 0,
        ends_line(cmake_architectures(f)),
        count_occurrences(cmake_architectures(f), add_executable_open()) == 0,
        count_occurrences(cmake_architectures(f), mpi_link_text()) == 0,
        ends_line(cmake_packages(f)),
        count_occurrences(cmake_packages(f), add_executable_open()) == 0,
        count_occurrences(cmake_packages(f), mpi_link_text()) == 0,
        ends_line(cmake_globs(f)),
        count_occurrences(cmake_globs(f), add_executable_open()) == 0,
        count_occurrences(cmake_globs(f), mpi_link_text()) == 0,
{
    reveal_strlit("set(CMAKE_CXX_STANDARD_REQUIRED ON)\n");
    lemma_literal_clean("set(CMAKE_CXX_STANDARD_REQUIRED ON)\n"@);
    reveal_strlit("\n# Detect the architecture(s) of the GPU(s) present at configure time.\n");
    reveal_strlit("set(CMAKE_CUDA_ARCHITECTURES native)\n");
    reveal_strlit("\n# Set to your GPU's architecture (e.g. gfx1100).\n");
    reveal_strlit("set(CMAKE_HIP_ARCHITECTURES gfx906)\n");
    lemma_literal_clean(cmake_architectures(f));
    reveal_strlit("\nfind_package(MPI REQUIRED)\n");
    reveal_strlit("\nfind_package(Kokkos REQUIRED)\n");
    lemma_literal_clean(cmake_packages(f));
    reveal_strlit("\nfile(GLOB_RECURSE CXX_SOURCES CONFIGURE_DEPENDS ./src/*.cpp)\n");
    reveal_strlit("file(GLOB_RECURSE CUDA_SOURCES CONFIGURE_DEPENDS ./src/*.cu)\n");
    reveal_strlit("file(GLOB_RECURSE HIP_SOURCES CONFIGURE_DEPENDS ./src/*.hip)\n");
    lemma_literal_clean(cmake_globs(f));
}

/// The preamble declares no executable and links no MPI.
#[verifier::spinoff_prover]
proof fn lemma_preamble_counts(name: Seq<char>, cxx_std: int, f: Features)
    requires
        valid_project_name(name),
    ensures
        count_occurrences(cmake_preamble(name, cxx_std, f), add_executable_open()) == 0,
        count_occurrences(cmake_preamble(name, cxx_std, f), mpi_link_text()) == 0,
        ends_line(cmake_preamble(name, cxx_std, f)),
{
    lemma_single_line_patterns();
    let p = add_executable_open();
    let q = mpi_link_text();
    let m = spec_min_cmake_minor(f) as nat;
    let h1 = "cmake_minimum_required(VERSION 3."@ + nat_decimal(m) + ".0)\n"@;
    let h2 = "project("@ + name + " VERSION 0.0.0 LANGUAGES CXX"@ + backend_languages(f.spec_backends())
        + ")\n\n"@;
    let s1 = "set(CMAKE_CXX_STANDARD "@ + int_decimal(cxx_std) + ")\n"@;
    let s2 = "set(CMAKE_CXX_STANDARD_REQUIRED ON)\n"@;
    lemma_version_line_clean(m);
    lemma_project_line_clean(name, f.spec_backends());
    lemma_standard_line_clean(cxx_std);
    lemma_settings_clean(f);
    assert(cmake_header(name, f) =~= h1 + h2);
    assert(cmake_standard(cxx_std) =~= s1 + s2);
    lemma_concat_zero(h1, h2, p);
    lemma_concat_zero(h1, h2, q);
    lemma_concat_zero(s1, s2, p);
    lemma_concat_zero(s1, s2, q);
    let x1 = cmake_header(name, f) + cmake_standard(cxx_std);
    lemma_concat_zero(cmake_header(name, f), cmake_standard(cxx_std), p);
    lemma_concat_zero(cmake_header(name, f), cmake_standard(cxx_std), q);
    let x2 = x1 + cmake_architectures(f);
    lemma_concat_zero(x1, cmake_architectures(f), p);
    lemma_concat_zero(x1, cmake_architectures(f), q);
    let x3 = x2 + cmake_packages(f);
    lemma_concat_zero(x2, cmake_packages(f), p);
    lemma_concat_zero(x2, cmake_packages(f), q);
    lemma_concat_zero(x3, cmake_globs(f), p);
    lemma_concat_zero(x3, cmake_globs(f), q);
}

/// Two lines that `p` does not occur in, put together.
proof fn lemma_concat_zero(a: Seq<char>, b: Seq<char>, p: Seq<char>)
    requires
        p.len() > 0,
        single_line(p),
        ends_line(a),
        ends_line(b),
        count_occurrences(a, p) == 0,
        count_occurrences(b, p) == 0,
    ensures
        count_occurrences(a + b, p) == 0,
        ends_line(a + b),
{
    lemma_count_concat_lines(a, b, p);
    if b.len() > 0 {
        assert((a + b).last() == b.last());
    } else {
        assert(a + b =~= a);
    }
}

/// The blocks of targets with plain names declare one executable each and,
/// without MPI, link no MPI.
#[verifier::spinoff_prover]
proof fn lemma_blocks_counts(ts: Seq<TargetSpec>, kokkos: bool)
    requires
        forall|i: int| 0 <= i < ts.len() ==> plain_name(#[trigger] ts[i].name),
    ensures
        count_occurrences(target_blocks(ts, kokkos), add_executable_open()) == ts.len(),
        ends_line(target_blocks(ts, kokkos)),
        (forall|i: int| 0 <= i < ts.len() ==> !(#[trigger] ts[i]).mpi) ==> count_occurrences(
            target_blocks(ts, kokkos),
            mpi_link_text(),
        ) == 0,
    decreases ts.len(),
{
    lemma_single_line_patterns();
    if ts.len() > 0 {
        let init = ts.drop_last();
        assert forall|i: int| 0 <= i < init.len() implies plain_name(#[trigger] init[i].name) by {
            assert(init[i] == ts[i]);
        }
        lemma_blocks_counts(init, kokkos);
        assert(plain_name(ts[ts.len() - 1].name));
        lemma_block_counts(ts.last(), kokkos);
        let a = target_blocks(init, kokkos);
        let b = target_block(ts.last(), kokkos);
        lemma_count_concat_lines(a, b, add_executable_open());
        lemma_count_concat_lines(a, b, mpi_link_text());
        if forall|i: int| 0 <= i < ts.len() ==> !(#[trigger] ts[i]).mpi {
            assert(!ts[ts.len() - 1].mpi);
            assert forall|i: int| 0 <= i < init.len() implies !(#[trigger] init[i]).mpi by {
                assert(init[i] == ts[i]);
            }
        }
        lemma_concat_zero_ends(a, b);
    }
}

proof fn lemma_concat_zero_ends(a: Seq<char>, b: Seq<char>)
    requires
        ends_line(a),
        ends_line(b),
    ensures
        ends_line(a + b),
{
    if b.len() > 0 {
        assert((a + b).last() == b.last());
    } else {
        assert(a + b =~= a);
    }
}

/// The block of the `i`-th target stands whole in the blocks of all.
proof fn lemma_block_in_blocks(ts: Seq<TargetSpec>, kokkos: bool, i: int) -> (r: (
    Seq<char>,
    Seq<char>,
))
    requires
        0 <= i < ts.len(),
    ensures
        target_blocks(ts, kokkos) == r.0 + target_block(ts[i], kokkos) + r.1,
    decreases ts.len(),
{
    let init = ts.drop_last();
    if i == ts.len() - 1 {
        (target_blocks(init, kokkos), Seq::empty())
    } else {
        let r0 = lemma_block_in_blocks(init, kokkos, i);
        assert(init[i] == ts[i]);
        let r = (r0.0, r0.1 + target_block(ts.last(), kokkos));
        assert(target_blocks(ts, kokkos) =~= r.0 + target_block(ts[i], kokkos) + r.1);
        r
    }
}

/// Where the lines of a target stand in its block.
proof fn lemma_block_lines(t: TargetSpec, kokkos: bool)
    ensures
        occurs_at(target_block(t, kokkos), add_executable_line(t), 1),
        contains_text(target_block(t, kokkos), install_line(t)),
        t.mpi ==> contains_text(target_block(t, kokkos), mpi_link_of(t)),
{
    reveal_strlit("\n");
    reveal_strlit(" PRIVATE MPI::MPI_CXX)\n");
    reveal_strlit(" PRIVATE MPI::MPI_CXX)");
    let n = t.name;
    let l0 = "\n"@;
    let l1 = add_executable_line(t);
    let l2 = text_if(t.mpi, "target_link_libraries("@ + n + " PRIVATE MPI::MPI_CXX)\n"@);
    let l3 = text_if(kokkos, "target_link_libraries("@ + n + " PRIVATE Kokkos::kokkos)\n"@);
    let l4 = install_line(t);
    let block = target_block(t, kokkos);
    assert(block =~= l0 + l1 + (l2 + l3 + l4));
    assert(l1.subrange(0, l1.len() as int) =~= l1);
    lemma_contains_within(l0, l1, l2 + l3 + l4, l1, 0);
    assert(block =~= (l0 + l1 + l2 + l3) + l4 + Seq::<char>::empty());
    assert(l4.subrange(0, l4.len() as int) =~= l4);
    lemma_contains_within(l0 + l1 + l2 + l3, l4, Seq::<char>::empty(), l4, 0);
    if t.mpi {
        let m = mpi_link_of(t);
        assert(l2.subrange(0, m.len() as int) =~= m);
        assert(block =~= (l0 + l1) + l2 + (l3 + l4));
        lemma_contains_within(l0 + l1, l2, l3 + l4, m, 0);
    }
}

/// Every target's names are plain when the project's name is valid.
proof fn lemma_target_names_plain(f: Features, name: Seq<char>)
    requires
        valid_project_name(name),
    ensures
        forall|i: int|
            0 <= i < f.spec_targets(name).len() ==> plain_name(#[trigger] f.spec_targets(name)[i].name),
{
    lemma_targets_by_backends(f, name);
    reveal_strlit("_cuda");
    reveal_strlit("_hip");
    assert(plain_name(name + "_cuda"@));
    assert(plain_name(name + "_hip"@));
}

/// `CMakeLists.txt` has one block per target: exactly as many
/// `add_executable(` as targets; each target's `add_executable` line with
/// its sources, and its `install` line; and its MPI link exactly when MPI is
/// enabled.
#[verifier::spinoff_prover]
pub proof fn lemma_one_block_per_target(name: Seq<char>, cxx_std: int, f: Features)
    requires
        valid_project_name(name),
    ensures
        count_occurrences(spec_render(name, cxx_std, f), add_executable_open()) == f.spec_targets(
            name,
        ).len(),
        forall|i: int|
            0 <= i < f.spec_targets(name).len() ==> {
                let t = #[trigger] f.spec_targets(name)[i];
                &&& contains_text(spec_render(name, cxx_std, f), add_executable_line(t))
                &&& contains_text(spec_render(name, cxx_std, f), install_line(t))
                &&& (t.mpi <==> contains_text(spec_render(name, cxx_std, f), mpi_link_of(t)))
            },
{
    let ts = f.spec_targets(name);
    let pre = cmake_preamble(name, cxx_std, f);
    let blocks = target_blocks(ts, f.kokkos);
    let text = spec_render(name, cxx_std, f);
    assert(text =~= pre + blocks);
    lemma_single_line_patterns();
    lemma_target_names_plain(f, name);
    lemma_preamble_counts(name, cxx_std, f);
    lemma_blocks_counts(ts, f.kokkos);
    lemma_count_concat_lines(pre, blocks, add_executable_open());
    lemma_count_concat_lines(pre, blocks, mpi_link_text());
    assert forall|i: int| 0 <= i < ts.len() implies {
        let t = #[trigger] ts[i];
        &&& contains_text(text, add_executable_line(t))
        &&& contains_text(text, install_line(t))
        &&& (t.mpi <==> contains_text(text, mpi_link_of(t)))
    } by {
        let t = ts[i];
        let r = lemma_block_in_blocks(ts, f.kokkos, i);
        let b = target_block(t, f.kokkos);
        assert(text =~= (pre + r.0) + b + r.1);
        lemma_block_lines(t, f.kokkos);
        lemma_contains_within(pre + r.0, b, r.1, add_executable_line(t), 1);
        let j = choose|j: int| occurs_at(b, install_line(t), j);
        lemma_contains_within(pre + r.0, b, r.1, install_line(t), j);
        assert(t.mpi == f.mpi);
        if t.mpi {
            let k = choose|k: int| occurs_at(b, mpi_link_of(t), k);
            lemma_contains_within(pre + r.0, b, r.1, mpi_link_of(t), k);
        } else {
            assert forall|i2: int| 0 <= i2 < ts.len() implies !(#[trigger] ts[i2]).mpi by {}
            lemma_blocks_counts(ts, f.kokkos);
            lemma_count_zero_not_contained(text, mpi_link_text());
            if contains_text(text, mpi_link_of(t)) {
                let k = choose|k: int| occurs_at(text, mpi_link_of(t), k);
                lemma_mpi_token_in_link(t);
                lemma_contains_trans(text, mpi_link_of(t), mpi_link_text(), k, mpi_token_offset(t));
            }
        }
    }
}

/// Where `MPI::` stands in a target's MPI link.
pub open spec fn mpi_token_offset(t: TargetSpec) -> int {
    t.name.len() as int + 31
}

proof fn lemma_mpi_token_in_link(t: TargetSpec)
    ensures
        occurs_at(mpi_link_of(t), mpi_link_text(), mpi_token_offset(t)),
{
    reveal_strlit("target_link_libraries(");
    reveal_strlit(" PRIVATE MPI::MPI_CXX)");
    reveal_strlit("MPI::");
    let m = mpi_link_of(t);
    let j = mpi_token_offset(t);
    assert(m.subrange(j, j + 5) =~= mpi_link_text());
}

// ---------------------------------------------------------------------------
// The MPI package
// ---------------------------------------------------------------------------

/// The line that makes CMake look for MPI, which defines `MPI::MPI_CXX`.
pub open spec fn mpi_package_text() -> Seq<char> {
    "find_package(MPI REQUIRED)"@
}

proof fn lemma_mpi_package_pattern()
    ensures
        mpi_package_text().len() == 26,
        single_line(mpi_package_text()),
        mpi_package_text()[10] == 'g',
        mpi_package_text()[11] == 'e',
        mpi_package_text()[12] == '(',
        mpi_package_text()[13] == 'M',
{
    reveal_strlit("find_package(MPI REQUIRED)");
}

/// Where `ge(M` stands nowhere, the MPI package is not looked for.
proof fn lemma_no_mpi_package(x: Seq<char>)
    requires
        forall|j: int| !#[trigger] has4(x, j, 'g', 'e', '(', 'M'),
    ensures
        count_occurrences(x, mpi_package_text()) == 0,
{
    lemma_mpi_package_pattern();
    lemma_count_zero_by4(x, mpi_package_text(), 10);
}

proof fn lemma_header_no_mpi_package(name: Seq<char>, f: Features)
    requires
        valid_project_name(name),
    ensures
        count_occurrences(cmake_header(name, f), mpi_package_text()) == 0,
        ends_line(cmake_header(name, f)),
{
    lemma_mpi_package_pattern();
    let m = spec_min_cmake_minor(f) as nat;
    lemma_nat_decimal_digits(m);
    lemma_backend_languages_chars(f.spec_backends());
    reveal_strlit("cmake_minimum_required(VERSION 3.");
    reveal_strlit(".0)\n");
    reveal_strlit("project(");
    reveal_strlit(" VERSION 0.0.0 LANGUAGES CXX");
    reveal_strlit(")\n\n");
    let h1 = "cmake_minimum_required(VERSION 3."@ + nat_decimal(m) + ".0)\n"@;
    let h2 = "project("@ + name + " VERSION 0.0.0 LANGUAGES CXX"@ + backend_languages(f.spec_backends())
        + ")\n\n"@;
    assert forall|j: int| !#[trigger] has4(h1, j, 'g', 'e', '(', 'M') by {
        if has4(h1, j, 'g', 'e', '(', 'M') {
            assert(h1[j + 2] == '(');
        }
    }
    assert forall|j: int| !#[trigger] has4(h2, j, 'g', 'e', '(', 'M') by {
        if has4(h2, j, 'g', 'e', '(', 'M') {
            assert(h2[j + 2] == '(');
        }
    }
    lemma_no_mpi_package(h1);
    lemma_no_mpi_package(h2);
    lemma_version_line_clean(m);
    lemma_project_line_clean(name, f.spec_backends());
    assert(cmake_header(name, f) =~= h1 + h2);
    lemma_concat_zero(h1, h2, mpi_package_text());
}

proof fn lemma_settings_no_mpi_package(cxx_std: int, f: Features)
    requires
        !f.mpi,
    ensures
        count_occurrences(
            cmake_standard(cxx_std) + cmake_architectures(f) + cmake_packages(f) + cmake_globs(f),
            mpi_package_text(),
        ) == 0,
        ends_line(cmake_standard(cxx_std) + cmake_architectures(f) + cmake_packages(f) + cmake_globs(f)),
{
    lemma_mpi_package_pattern();
    lemma_int_decimal_chars(cxx_std);
    reveal_strlit("set(CMAKE_CXX_STANDARD ");
    reveal_strlit(")\n");
    reveal_strlit("set(CMAKE_CXX_STANDARD_REQUIRED ON)\n");
    reveal_strlit("\n# Detect the architecture(s) of the GPU(s) present at configure time.\n");
    reveal_strlit("set(CMAKE_CUDA_ARCHITECTURES native)\n");
    reveal_strlit("\n# Set to your GPU's architecture (e.g. gfx1100).\n");
    reveal_strlit("set(CMAKE_HIP_ARCHITECTURES gfx906)\n");
    reveal_strlit("\nfind_package(Kokkos REQUIRED)\n");
    reveal_strlit("\nfile(GLOB_RECURSE CXX_SOURCES CONFIGURE_DEPENDS ./src/*.cpp)\n");
    reveal_strlit("file(GLOB_RECURSE CUDA_SOURCES CONFIGURE_DEPENDS ./src/*.cu)\n");
    reveal_strlit("file(GLOB_RECURSE HIP_SOURCES CONFIGURE_DEPENDS ./src/*.hip)\n");
    let s1 = "set(CMAKE_CXX_STANDARD "@ + int_decimal(cxx_std) + ")\n"@;
    let s2 = "set(CMAKE_CXX_STANDARD_REQUIRED ON)\n"@;
    let a = cmake_architectures(f);
    let k = cmake_packages(f);
    let g = cmake_globs(f);
    assert forall|j: int| !#[trigger] has4(s1, j, 'g', 'e', '(', 'M') by {
        if has4(s1, j, 'g', 'e', '(', 'M') {
            assert(s1[j + 2] == '(');
        }
    }
    assert forall|j: int| !#[trigger] has4(s2, j, 'g', 'e', '(', 'M') by {}
    assert forall|j: int| !#[trigger] has4(a, j, 'g', 'e', '(', 'M') by {}
    assert forall|j: int| !#[trigger] has4(k, j, 'g', 'e', '(', 'M') by {}
    assert forall|j: int| !#[trigger] has4(g, j, 'g', 'e', '(', 'M') by {}
    lemma_no_mpi_package(s1);
    lemma_no_mpi_package(s2);
    lemma_no_mpi_package(a);
    lemma_no_mpi_package(k);
    lemma_no_mpi_package(g);
    lemma_standard_line_clean(cxx_std);
    lemma_settings_clean(f);
    let r = mpi_package_text();
    assert(cmake_standard(cxx_std) =~= s1 + s2);
    lemma_concat_zero(s1, s2, r);
    lemma_concat_zero(s1 + s2, a, r);
    lemma_concat_zero(s1 + s2 + a, k, r);
    lemma_concat_zero(s1 + s2 + a + k, g, r);
}

proof fn lemma_block_no_mpi_package(t: TargetSpec, kokkos: bool)
    requires
        plain_name(t.name),
        !t.mpi,
    ensures
        count_occurrences(target_block(t, kokkos), mpi_package_text()) == 0,
{
    lemma_mpi_package_pattern();
    lemma_target_sources_chars(t.backend);
    reveal_strlit("\n");
    reveal_strlit("add_executable(");
    reveal_strlit(" ");
    reveal_strlit(")\n");
    reveal_strlit("target_link_libraries(");
    reveal_strlit(" PRIVATE Kokkos::kokkos)\n");
    reveal_strlit("install(TARGETS ");
    let n = t.name;
    let l0 = "\n"@;
    let l1 = add_executable_line(t);
    let l3 = text_if(kokkos, "target_link_libraries("@ + n + " PRIVATE Kokkos::kokkos)\n"@);
    let l4 = install_line(t);
    assert(target_block(t, kokkos) =~= l0 + l1 + l3 + l4);
    assert forall|j: int| !#[trigger] has4(l0, j, 'g', 'e', '(', 'M') by {}
    assert forall|j: int| !#[trigger] has4(l1, j, 'g', 'e', '(', 'M') by {
        if has4(l1, j, 'g', 'e', '(', 'M') {
            assert(l1[j + 2] == '(');
        }
    }
    assert forall|j: int| !#[trigger] has4(l3, j, 'g', 'e', '(', 'M') by {
        if has4(l3, j, 'g', 'e', '(', 'M') {
            assert(l3[j + 2] == '(');
        }
    }
    assert forall|j: int| !#[trigger] has4(l4, j, 'g', 'e', '(', 'M') by {
        if has4(l4, j, 'g', 'e', '(', 'M') {
            assert(l4[j + 2] == '(');
        }
    }
    lemma_no_mpi_package(l0);
    lemma_no_mpi_package(l1);
    lemma_no_mpi_package(l3);
    lemma_no_mpi_package(l4);
    lemma_add_line_count(t);
    lemma_kokkos_line_count(n);
    let r = mpi_package_text();
    assert(ends_line(l0));
    assert(ends_line(l3));
    lemma_concat_zero(l0, l1, r);
    lemma_concat_zero(l0 + l1, l3, r);
    lemma_install_line_count(t);
    lemma_concat_zero(l0 + l1 + l3, l4, r);
}

#[verifier::spinoff_prover]
proof fn lemma_blocks_no_mpi_package(ts: Seq<TargetSpec>, kokkos: bool)
    requires
        forall|i: int| 0 <= i < ts.len() ==> plain_name(#[trigger] ts[i].name),
        forall|i: int| 0 <= i < ts.len() ==> !(#[trigger] ts[i]).mpi,
    ensures
        count_occurrences(target_blocks(ts, kokkos), mpi_package_text()) == 0,
    decreases ts.len(),
{
    if ts.len() > 0 {
        let init = ts.drop_last();
        assert forall|i: int| 0 <= i < init.len() implies plain_name(#[trigger] init[i].name) by {
            assert(init[i] == ts[i]);
        }
        assert forall|i: int| 0 <= i < init.len() implies !(#[trigger] init[i]).mpi by {
            assert(init[i] == ts[i]);
        }
        lemma_blocks_no_mpi_package(init, kokkos);
        assert(plain_name(ts[ts.len() - 1].name));
        assert(!ts[ts.len() - 1].mpi);
        lemma_block_no_mpi_package(ts.last(), kokkos);
        lemma_blocks_counts(init, kokkos);
        lemma_mpi_package_pattern();
        lemma_count_concat_lines(target_blocks(init, kokkos), target_block(ts.last(), kokkos), mpi_package_text());
    }
}

#[verifier::spinoff_prover]
proof fn lemma_mpi_package_present(name: Seq<char>, cxx_std: int, f: Features)
    requires
        valid_project_name(name),
        f.mpi,
    ensures
        exists|i: int, j: int|
            i < j && occurs_at(spec_render(name, cxx_std, f), mpi_package_text(), i) && occurs_at(
                spec_render(name, cxx_std, f),
                add_executable_open(),
                j,
            ),
{
    reveal_strlit("find_package(MPI REQUIRED)");
    reveal_strlit("\nfind_package(MPI REQUIRED)\n");
    reveal_strlit("add_executable(");
    let text = spec_render(name, cxx_std, f);
    let head = cmake_header(name, f) + cmake_standard(cxx_std) + cmake_architectures(f);
    let pk = cmake_packages(f);
    let g = cmake_globs(f);
    let ts = f.spec_targets(name);
    lemma_targets_count(f, name);
    let t = ts[0];
    let b0 = target_block(t, f.kokkos);
    let r = lemma_block_in_blocks(ts, f.kokkos, 0);
    assert(text =~= head + pk + (g + r.0 + b0 + r.1));
    assert(pk.subrange(1, 27) =~= mpi_package_text());
    lemma_contains_within(head, pk, g + r.0 + b0 + r.1, mpi_package_text(), 1);
    let l = add_executable_line(t);
    lemma_block_lines(t, f.kokkos);
    assert(l.subrange(0, 15) =~= add_executable_open());
    lemma_contains_trans(b0, l, add_executable_open(), 1, 0);
    assert(text =~= (head + pk + g + r.0) + b0 + r.1);
    lemma_contains_within(head + pk + g + r.0, b0, r.1, add_executable_open(), 1);
    let i: int = head.len() as int + 1;
    let j: int = head.len() as int + pk.len() + g.len() + r.0.len() + 1;
    assert(i < j);
    assert(occurs_at(text, mpi_package_text(), i));
    assert(occurs_at(text, add_executable_open(), j));
}

#[verifier::spinoff_prover]
proof fn lemma_mpi_package_absent(name: Seq<char>, cxx_std: int, f: Features)
    requires
        valid_project_name(name),
        !f.mpi,
    ensures
        !contains_text(spec_render(name, cxx_std, f), mpi_package_text()),
{
    lemma_mpi_package_pattern();
    let text = spec_render(name, cxx_std, f);
    lemma_header_no_mpi_package(name, f);
    lemma_settings_no_mpi_package(cxx_std, f);
    let ts = f.spec_targets(name);
    lemma_target_names_plain(f, name);
    lemma_targets_count(f, name);
    assert forall|i: int| 0 <= i < ts.len() implies !(#[trigger] ts[i]).mpi by {}
    lemma_blocks_no_mpi_package(ts, f.kokkos);
    let rest = cmake_standard(cxx_std) + cmake_architectures(f) + cmake_packages(f) + cmake_globs(f);
    let pre = cmake_header(name, f) + rest;
    lemma_count_concat_lines(cmake_header(name, f), rest, mpi_package_text());
    lemma_concat_zero_ends(cmake_header(name, f), rest);
    assert(text =~= pre + target_blocks(ts, f.kokkos));
    lemma_count_concat_lines(pre, target_blocks(ts, f.kokkos), mpi_package_text());
    lemma_count_zero_not_contained(text, mpi_package_text());
}

/// `CMakeLists.txt` looks for the MPI package exactly when MPI is enabled,
/// whatever GPU backends are enabled; then it does so before declaring any
/// executable.
pub proof fn lemma_mpi_package(name: Seq<char>, cxx_std: int, f: Features)
    requires
        valid_project_name(name),
    ensures
        contains_text(spec_render(name, cxx_std, f), mpi_package_text()) <==> f.mpi,
        f.mpi ==> exists|i: int, j: int|
            i < j && occurs_at(spec_render(name, cxx_std, f), mpi_package_text(), i) && occurs_at(
                spec_render(name, cxx_std, f),
                add_executable_open(),
                j,
            ),
{
    if f.mpi {
        lemma_mpi_package_present(name, cxx_std, f);
    } else {
        lemma_mpi_package_absent(name, cxx_std, f);
    }
}

/// Every target of `f` links MPI exactly when `f` enables it, and there is
/// at least one target.
proof fn lemma_targets_count(f: Features, name: Seq<char>)
    ensures
        f.spec_targets(name).len() >= 1,
        forall|i: int| 0 <= i < f.spec_targets(name).len() ==> (#[trigger] f.spec_targets(name)[i]).mpi == f.mpi,
{
    lemma_targets_by_backends(f, name);
}

// ---------------------------------------------------------------------------
// Minimum version and Kokkos
// ---------------------------------------------------------------------------

/// `CMakeLists.txt` opens by requiring CMake 3.24 with CUDA, else 3.22 with
/// Kokkos, else 3.21 with HIP, else 3.20; the minor version is written in
/// decimal and reads back as that number.
#[verifier::spinoff_prover]
pub proof fn lemma_min_version_line(name: Seq<char>, cxx_std: int, f: Features)
    ensures
        ({
            let minor: nat = if f.cuda {
                24
            } else if f.kokkos {
                22
            } else if f.hip {
                21
            } else {
                20
            };
            &&& occurs_at(
                spec_render(name, cxx_std, f),
                "cmake_minimum_required(VERSION 3."@ + nat_decimal(minor) + ".0)\n"@,
                0,
            )
            &&& spec_parse_int(nat_decimal(minor)) == Some(minor as int)
        }),
{
    let minor: nat = if f.cuda {
        24
    } else if f.kokkos {
        22
    } else if f.hip {
        21
    } else {
        20
    };
    assert(spec_min_cmake_minor(f) == minor);
    let line = "cmake_minimum_required(VERSION 3."@ + nat_decimal(minor) + ".0)\n"@;
    let h2 = "project("@ + name + " VERSION 0.0.0 LANGUAGES CXX"@ + backend_languages(f.spec_backends())
        + ")\n\n"@;
    let h = cmake_header(name, f);
    assert(h =~= line + h2);
    assert(occurs_at(line, line, 0)) by {
        assert(line.subrange(0, line.len() as int) =~= line);
    }
    lemma_occurs_extend_right(line, h2, line, 0);
    let x1 = h + cmake_standard(cxx_std);
    lemma_occurs_extend_right(h, cmake_standard(cxx_std), line, 0);
    let x2 = x1 + cmake_architectures(f);
    lemma_occurs_extend_right(x1, cmake_architectures(f), line, 0);
    let x3 = x2 + cmake_packages(f);
    lemma_occurs_extend_right(x2, cmake_packages(f), line, 0);
    let x4 = x3 + cmake_globs(f);
    lemma_occurs_extend_right(x3, cmake_globs(f), line, 0);
    lemma_occurs_extend_right(x4, target_blocks(f.spec_targets(name), f.kokkos), line, 0);
    lemma_decimal_reads_back(minor);
}

/// With Kokkos, `CMakeLists.txt` looks for the Kokkos package and links
/// `Kokkos::kokkos` into every target.
#[verifier::spinoff_prover]
pub proof fn lemma_kokkos_links(name: Seq<char>, cxx_std: int, f: Features)
    requires
        f.kokkos,
    ensures
        contains_text(spec_render(name, cxx_std, f), "find_package(Kokkos REQUIRED)"@),
        forall|i: int|
            0 <= i < f.spec_targets(name).len() ==> contains_text(
                spec_render(name, cxx_std, f),
                "target_link_libraries("@ + (#[trigger] f.spec_targets(name)[i]).name
                    + " PRIVATE Kokkos::kokkos)"@,
            ),
{
    lemma_kokkos_package(name, cxx_std, f);
    let ts = f.spec_targets(name);
    assert forall|i: int| 0 <= i < ts.len() implies contains_text(
        spec_render(name, cxx_std, f),
        "target_link_libraries("@ + (#[trigger] ts[i]).name + " PRIVATE Kokkos::kokkos)"@,
    ) by {
        lemma_kokkos_link_of(name, cxx_std, f, i);
    }
}

proof fn lemma_kokkos_package(name: Seq<char>, cxx_std: int, f: Features)
    requires
        f.kokkos,
    ensures
        contains_text(spec_render(name, cxx_std, f), "find_package(Kokkos REQUIRED)"@),
{
    reveal_strlit("find_package(Kokkos REQUIRED)");
    reveal_strlit("\nfind_package(Kokkos REQUIRED)\n");
    let p = "find_package(Kokkos REQUIRED)"@;
    let m = text_if(f.mpi, "\nfind_package(MPI REQUIRED)\n"@);
    let kp = "\nfind_package(Kokkos REQUIRED)\n"@;
    assert(occurs_at(kp, p, 1)) by {
        assert(kp.subrange(1, 30) =~= p);
    }
    assert(cmake_packages(f) == m + kp);
    lemma_occurs_extend_left(m, kp, p, 1);
    let h = cmake_header(name, f) + cmake_standard(cxx_std) + cmake_architectures(f);
    lemma_occurs_extend_left(h, cmake_packages(f), p, m.len() as int + 1);
    let x = h + cmake_packages(f);
    lemma_occurs_extend_right(x, cmake_globs(f), p, h.len() as int + m.len() + 1);
    lemma_occurs_extend_right(
        x + cmake_globs(f),
        target_blocks(f.spec_targets(name), f.kokkos),
        p,
        h.len() as int + m.len() + 1,
    );
}

proof fn lemma_kokkos_link_of(name: Seq<char>, cxx_std: int, f: Features, i: int)
    requires
        f.kokkos,
        0 <= i < f.spec_targets(name).len(),
    ensures
        contains_text(
            spec_render(name, cxx_std, f),
            "target_link_libraries("@ + f.spec_targets(name)[i].name + " PRIVATE Kokkos::kokkos)"@,
        ),
{
    reveal_strlit(" PRIVATE Kokkos::kokkos)");
    reveal_strlit(" PRIVATE Kokkos::kokkos)\n");
    let ts = f.spec_targets(name);
    let t = ts[i];
    let n = t.name;
    let k = "target_link_libraries("@ + n + " PRIVATE Kokkos::kokkos)"@;
    let l0l1 = "\n"@ + add_executable_line(t);
    let l2 = text_if(t.mpi, "target_link_libraries("@ + n + " PRIVATE MPI::MPI_CXX)\n"@);
    let l3 = "target_link_libraries("@ + n + " PRIVATE Kokkos::kokkos)\n"@;
    let l4 = install_line(t);
    let b = target_block(t, f.kokkos);
    assert(b =~= (l0l1 + l2) + l3 + l4);
    assert(occurs_at(l3, k, 0)) by {
        assert(l3.subrange(0, k.len() as int) =~= k);
    }
    lemma_contains_within(l0l1 + l2, l3, l4, k, 0);
    let j = choose|j: int| occurs_at(b, k, j);
    let r = lemma_block_in_blocks(ts, f.kokkos, i);
    let pre = cmake_preamble(name, cxx_std, f);
    let blocks = target_blocks(ts, f.kokkos);
    lemma_occurs_extend_left(r.0, b, k, j);
    lemma_occurs_extend_right(r.0 + b, r.1, k, r.0.len() + j);
    lemma_occurs_extend_left(pre, blocks, k, r.0.len() + j);
    assert(spec_render(name, cxx_std, f) == pre + blocks);
}

} // verus!
