//! Composable project capabilities and the build targets they imply.
//!
//! `mpi`, `cuda` and `hip` are independent toggles. The set of enabled GPU
//! backends decides how many executables a project needs, while MPI (and
//! Kokkos) are orthogonal modifiers applied to every target.
use vstd::prelude::*;

verus! {

/// A GPU backend that compiles its own kernel sources into a target.
#[derive(Clone, Copy, Debug, PartialEq, Eq, Structural)]
pub enum Backend {
    Cuda,
    Hip,
}

/// Suffix appended to an executable's name when more than one backend is built.
pub open spec fn spec_suffix(b: Backend) -> Seq<char> {
    match b {
        Backend::Cuda => "cuda"@,
        Backend::Hip => "hip"@,
    }
}

/// File extension of a backend's kernel sources.
pub open spec fn spec_kernel_ext(b: Backend) -> Seq<char> {
    match b {
        Backend::Cuda => "cu"@,
        Backend::Hip => "hip"@,
    }
}

/// CMake language name enabled for a backend.
pub open spec fn spec_cmake_lang(b: Backend) -> Seq<char> {
    match b {
        Backend::Cuda => "CUDA"@,
        Backend::Hip => "HIP"@,
    }
}

impl Backend {
    /// Suffix appended to the executable name when more than one backend is
    /// built (e.g. `myproj_cuda`).
    pub fn suffix(self) -> (s: &'static str)
        ensures
            s@ == spec_suffix(self),
    {
        match self {
            Backend::Cuda => "cuda",
            Backend::Hip => "hip",
        }
    }

    /// File extension used for this backend's kernel sources.
    pub fn kernel_ext(self) -> (s: &'static str)
        ensures
            s@ == spec_kernel_ext(self),
    {
        match self {
            Backend::Cuda => "cu",
            Backend::Hip => "hip",
        }
    }

    /// CMake language name enabled for this backend.
    pub fn cmake_lang(self) -> (s: &'static str)
        ensures
            s@ == spec_cmake_lang(self),
    {
        match self {
            Backend::Cuda => "CUDA",
            Backend::Hip => "HIP",
        }
    }
}

/// The capabilities requested for a project.
#[derive(Clone, Copy, Debug, PartialEq, Eq, Structural)]
pub struct Features {
    pub mpi: bool,
    pub cuda: bool,
    pub hip: bool,
    pub kokkos: bool,
}

impl Default for Features {
    /// No capability enabled: a plain C++ project.
    fn default() -> (r: Self)
        ensures
            r == (Features { mpi: false, cuda: false, hip: false, kokkos: false }),
    {
        Features { mpi: false, cuda: false, hip: false, kokkos: false }
    }
}

/// What a target is, as a mathematical value.
pub struct TargetSpec {
    pub name: Seq<char>,
    pub backend: Option<Backend>,
    pub mpi: bool,
}

/// A single executable the generated CMake project should build.
#[derive(Clone, Debug, PartialEq, Eq)]
pub struct Target {
    /// Executable name. Equals the project name unless two backends are built,
    /// in which case each target is suffixed with its backend name.
    pub name: String,
    /// The GPU backend compiled into this target, or `None` for plain C++.
    pub backend: Option<Backend>,
    /// Whether this target links against MPI.
    pub mpi: bool,
}

impl View for Target {
    type V = TargetSpec;

    open spec fn view(&self) -> TargetSpec {
        TargetSpec { name: self.name@, backend: self.backend, mpi: self.mpi }
    }
}

/// The views of a vector of targets.
pub open spec fn targets_view(ts: Seq<Target>) -> Seq<TargetSpec> {
    ts.map_values(|t: Target| t@)
}

impl Features {
    /// Whether backend `b` is enabled.
    pub open spec fn spec_has(self, b: Backend) -> bool {
        match b {
            Backend::Cuda => self.cuda,
            Backend::Hip => self.hip,
        }
    }

    /// The enabled backends, CUDA before HIP.
    pub open spec fn spec_backends(self) -> Seq<Backend> {
        (if self.cuda { seq![Backend::Cuda] } else { Seq::empty() }) + (if self.hip {
            seq![Backend::Hip]
        } else {
            Seq::empty()
        })
    }

    /// The executables a project named `name` builds.
    ///
    /// With at most one backend there is a single target named after the
    /// project; with both backends there is one target per backend, each
    /// suffixed with `_` and the backend's suffix. Every target links MPI
    /// exactly when MPI is enabled.
    pub open spec fn spec_targets(self, name: Seq<char>) -> Seq<TargetSpec> {
        let bs = self.spec_backends();
        if bs.len() == 0 {
            seq![TargetSpec { name, backend: None, mpi: self.mpi }]
        } else if bs.len() == 1 {
            seq![TargetSpec { name, backend: Some(bs[0]), mpi: self.mpi }]
        } else {
            bs.map_values(
                |b: Backend|
                    TargetSpec { name: name + "_"@ + spec_suffix(b), backend: Some(b), mpi: self.mpi },
            )
        }
    }

    /// Whether backend `b` is enabled.
    pub fn has(&self, b: Backend) -> (r: bool)
        ensures
            r == self.spec_has(b),
    {
        match b {
            Backend::Cuda => self.cuda,
            Backend::Hip => self.hip,
        }
    }

    /// The GPU backends enabled, in a stable order (CUDA before HIP).
    pub fn backends(&self) -> (v: Vec<Backend>)
        ensures
            v@ == self.spec_backends(),
            forall|b: Backend| v@.contains(b) <==> self.spec_has(b),
    {
        let mut backends: Vec<Backend> = Vec::new();
        if self.cuda {
            backends.push(Backend::Cuda);
        }
        if self.hip {
            backends.push(Backend::Hip);
        }
        proof {
            assert(backends@ =~= self.spec_backends());
            assert forall|b: Backend| backends@.contains(b) <==> self.spec_has(b) by {
                if self.spec_has(b) {
                    if b == Backend::Cuda {
                        assert(backends@[0] == b);
                    } else if self.cuda {
                        assert(backends@[1] == b);
                    } else {
                        assert(backends@[0] == b);
                    }
                }
            }
        }
        backends
    }

    /// Derive the executables to build for `project_name`.
    ///
    /// * no backend or exactly one backend: a single target named after the
    ///   project,
    /// * both CUDA and HIP: two targets, one per backend, each suffixed with
    ///   its backend name (CUDA and HIP cannot share a target).
    ///
    /// MPI, when enabled, applies to every target.
    pub fn targets(&self, project_name: &str) -> (ts: Vec<Target>)
        ensures
            targets_view(ts@) == self.spec_targets(project_name@),
            ts@.len() == (if self.cuda && self.hip { 2nat } else { 1nat }),
            forall|i: int| 0 <= i < ts@.len() ==> (#[trigger] ts@[i]).mpi == self.mpi,
    {
        let backends = self.backends();
        let mut ts: Vec<Target> = Vec::new();
        if backends.len() == 0 {
            ts.push(Target { name: String::from_str(project_name), backend: None, mpi: self.mpi });
        } else if backends.len() == 1 {
            ts.push(
                Target {
                    name: String::from_str(project_name),
                    backend: Some(backends[0]),
                    mpi: self.mpi,
                },
            );
        } else {
            let n = backends.len();
            let ghost expected = self.spec_targets(project_name@);
            let mut i: usize = 0;
            while i < n
                invariant
                    n == backends@.len(),
                    backends@ == self.spec_backends(),
                    n == 2,
                    expected == self.spec_targets(project_name@),
                    0 <= i <= n,
                    ts@.len() == i,
                    forall|j: int| 0 <= j < i ==> (#[trigger] ts@[j])@ == expected[j],
                decreases n - i,
            {
                let b = backends[i];
                let mut name = String::from_str(project_name);
                name.append("_");
                name.append(b.suffix());
                ts.push(Target { name, backend: Some(b), mpi: self.mpi });
                i = i + 1;
            }
            assert(targets_view(ts@) =~= expected);
        }
        proof {
            let bs = self.spec_backends();
            if bs.len() <= 1 {
                assert(targets_view(ts@) =~= self.spec_targets(project_name@));
            }
            assert forall|i: int| 0 <= i < ts@.len() implies (#[trigger] ts@[i]).mpi == self.mpi by {
                assert(targets_view(ts@)[i] == ts@[i]@);
            }
        }
        ts
    }
}

/// MPI and Kokkos are orthogonal to the backends: projects that enable the
/// same GPU backends build the same executables, with the same names and
/// kernels, whatever MPI and Kokkos are set to.
pub proof fn lemma_targets_orthogonal(f: Features, g: Features, name: Seq<char>)
    requires
        f.cuda == g.cuda,
        f.hip == g.hip,
    ensures
        f.spec_targets(name).len() == g.spec_targets(name).len(),
        forall|i: int|
            0 <= i < f.spec_targets(name).len() ==> (#[trigger] f.spec_targets(name)[i]).name
                == g.spec_targets(name)[i].name && f.spec_targets(name)[i].backend
                == g.spec_targets(name)[i].backend,
{
    assert(f.spec_backends() == g.spec_backends());
}

/// The executables of each backend combination: one named after the project
/// unless both CUDA and HIP are enabled, in which case `name_cuda` and
/// `name_hip`, CUDA first; each links MPI exactly when MPI is enabled.
pub proof fn lemma_targets_by_backends(f: Features, name: Seq<char>)
    ensures
        !f.cuda && !f.hip ==> f.spec_targets(name) == seq![
            TargetSpec { name, backend: None, mpi: f.mpi },
        ],
        f.cuda && !f.hip ==> f.spec_targets(name) == seq![
            TargetSpec { name, backend: Some(Backend::Cuda), mpi: f.mpi },
        ],
        !f.cuda && f.hip ==> f.spec_targets(name) == seq![
            TargetSpec { name, backend: Some(Backend::Hip), mpi: f.mpi },
        ],
        f.cuda && f.hip ==> f.spec_targets(name) == seq![
            TargetSpec { name: name + "_cuda"@, backend: Some(Backend::Cuda), mpi: f.mpi },
            TargetSpec { name: name + "_hip"@, backend: Some(Backend::Hip), mpi: f.mpi },
        ],
{
    if f.cuda && f.hip {
        reveal_strlit("_");
        reveal_strlit("cuda");
        reveal_strlit("hip");
        reveal_strlit("_cuda");
        reveal_strlit("_hip");
        let bs = f.spec_backends();
        assert(bs =~= seq![Backend::Cuda, Backend::Hip]);
        assert(name + "_"@ + "cuda"@ =~= name + "_cuda"@);
        assert(name + "_"@ + "hip"@ =~= name + "_hip"@);
        assert(f.spec_targets(name) =~= seq![
            TargetSpec { name: name + "_cuda"@, backend: Some(Backend::Cuda), mpi: f.mpi },
            TargetSpec { name: name + "_hip"@, backend: Some(Backend::Hip), mpi: f.mpi },
        ]);
    } else if f.cuda {
        assert(f.spec_backends() =~= seq![Backend::Cuda]);
    } else if f.hip {
        assert(f.spec_backends() =~= seq![Backend::Hip]);
    } else {
        assert(f.spec_backends() =~= Seq::<Backend>::empty());
    }
}

/// No two executables of a project share a name.
pub proof fn lemma_target_names_distinct(f: Features, name: Seq<char>)
    ensures
        forall|i: int, j: int|
            0 <= i < j < f.spec_targets(name).len() ==> (#[trigger] f.spec_targets(name)[i]).name
                != (#[trigger] f.spec_targets(name)[j]).name,
{
    lemma_targets_by_backends(f, name);
    if f.cuda && f.hip {
        reveal_strlit("_cuda");
        reveal_strlit("_hip");
        assert((name + "_cuda"@).len() != (name + "_hip"@).len());
    }
}

} // verus!
