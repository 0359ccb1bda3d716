//! Session, batch, and threading options for the text encoder.

use vstd::prelude::*;

verus! {

/// Graph-optimization level applied when the inference session is built.
#[derive(Clone, Copy, Debug, PartialEq, Eq, Structural)]
pub enum GraphOptimizationLevel {
    /// No graph optimizations.
    Disable,
    /// Semantics-preserving rewrites (the default).
    Level1,
    /// Extended optimizations.
    Level2,
    /// Layout optimizations.
    Level3,
    /// Every available optimization.
    All,
}

/// The inference backend a constructor is asked to use.
#[derive(Clone, Copy, Debug, PartialEq, Eq, Structural)]
pub enum Backend {
    /// Pick by platform and checkpoint contents.
    Auto,
    /// Always ONNX Runtime.
    Onnx,
    /// Always the MLX backend (Apple Silicon only).
    Mlx,
}

fn default_max_seq_len() -> (r: usize)
    ensures
        r == 2048,
{
    2048
}

fn default_batch_size() -> (r: usize)
    ensures
        r == 8,
{
    8
}

fn default_max_batch_size() -> (r: usize)
    ensures
        r == 1024,
{
    1024
}

/// Sequence-length and batching policy. Validated at encoder construction.
#[derive(Clone, Copy, Debug)]
pub struct BatchOptions {
    max_seq_len: usize,
    batch_size: usize,
    max_batch_size: usize,
}

impl BatchOptions {
    /// The configured maximum tokens per input.
    pub closed spec fn spec_max_seq_len(self) -> usize {
        self.max_seq_len
    }

    /// The configured chunk size.
    pub closed spec fn spec_batch_size(self) -> usize {
        self.batch_size
    }

    /// The configured cap on inputs per call.
    pub closed spec fn spec_max_batch_size(self) -> usize {
        self.max_batch_size
    }

    /// Whether `self` holds exactly the three given values.
    pub open spec fn holds(self, max_seq_len: usize, batch_size: usize, max_batch_size: usize) -> bool {
        &&& self.spec_max_seq_len() == max_seq_len
        &&& self.spec_batch_size() == batch_size
        &&& self.spec_max_batch_size() == max_batch_size
    }

    /// The crate defaults: `max_seq_len = 2048`, `batch_size = 8`,
    /// `max_batch_size = 1024`.
    pub fn new() -> (r: Self)
        ensures
            r.holds(2048, 8, 1024),
    {
        BatchOptions {
            max_seq_len: default_max_seq_len(),
            batch_size: default_batch_size(),
            max_batch_size: default_max_batch_size(),
        }
    }

    /// Maximum number of tokens per input.
    pub fn max_seq_len(&self) -> (r: usize)
        ensures
            r == self.spec_max_seq_len(),
    {
        self.max_seq_len
    }

    /// Inputs per inference call (chunk size).
    pub fn batch_size(&self) -> (r: usize)
        ensures
            r == self.spec_batch_size(),
    {
        self.batch_size
    }

    /// Hard upper bound on the number of inputs of one batched call.
    pub fn max_batch_size(&self) -> (r: usize)
        ensures
            r == self.spec_max_batch_size(),
    {
        self.max_batch_size
    }

    /// A copy with `max_seq_len` replaced.
    pub fn with_max_seq_len(self, n: usize) -> (r: Self)
        ensures
            r.holds(n, self.spec_batch_size(), self.spec_max_batch_size()),
    {
        let mut s = self;
        s.max_seq_len = n;
        s
    }

    /// A copy with `batch_size` replaced.
    pub fn with_batch_size(self, n: usize) -> (r: Self)
        ensures
            r.holds(self.spec_max_seq_len(), n, self.spec_max_batch_size()),
    {
        let mut s = self;
        s.batch_size = n;
        s
    }

    /// A copy with `max_batch_size` replaced.
    pub fn with_max_batch_size(self, n: usize) -> (r: Self)
        ensures
            r.holds(self.spec_max_seq_len(), self.spec_batch_size(), n),
    {
        let mut s = self;
        s.max_batch_size = n;
        s
    }

    /// In-place setter for `max_seq_len`; returns `&mut self` for chaining.
    pub fn set_max_seq_len(&mut self, n: usize) -> (r: &mut Self)
        ensures
            r.holds(n, old(self).spec_batch_size(), old(self).spec_max_batch_size()),
            *final(self) == *final(r),
    {
        self.max_seq_len = n;
        self
    }

    /// In-place setter for `batch_size`; returns `&mut self` for chaining.
    pub fn set_batch_size(&mut self, n: usize) -> (r: &mut Self)
        ensures
            r.holds(old(self).spec_max_seq_len(), n, old(self).spec_max_batch_size()),
            *final(self) == *final(r),
    {
        self.batch_size = n;
        self
    }

    /// In-place setter for `max_batch_size`; returns `&mut self` for chaining.
    pub fn set_max_batch_size(&mut self, n: usize) -> (r: &mut Self)
        ensures
            r.holds(old(self).spec_max_seq_len(), old(self).spec_batch_size(), n),
            *final(self) == *final(r),
    {
        self.max_batch_size = n;
        self
    }

    /// Whether the options pass [`Self::validate`].
    pub open spec fn is_valid(self) -> bool {
        &&& 1 <= self.spec_batch_size() <= self.spec_max_batch_size()
        &&& self.spec_max_seq_len() > 0
    }

    /// The error [`Self::validate`] reports for these options.
    pub open spec fn validation_matches(self, r: Result<(), crate::Error>) -> bool {
        if self.spec_batch_size() == 0 || self.spec_batch_size() > self.spec_max_batch_size() {
            r matches Err(crate::Error::InvalidBatchSize { batch_size, max_batch_size })
                && batch_size == self.spec_batch_size() && max_batch_size
                == self.spec_max_batch_size()
        } else if self.spec_max_seq_len() == 0 {
            r matches Err(crate::Error::InvalidMaxSeqLen)
        } else {
            r is Ok
        }
    }

    /// Rejects `batch_size == 0` or `batch_size > max_batch_size`
    /// ([`crate::Error::InvalidBatchSize`], checked first), then
    /// `max_seq_len == 0` ([`crate::Error::InvalidMaxSeqLen`]).
    pub fn validate(&self) -> (r: Result<(), crate::Error>)
        ensures
            r is Ok <==> self.is_valid(),
            self.validation_matches(r),
    {
        if self.batch_size == 0 || self.batch_size > self.max_batch_size {
            return Err(
                crate::Error::InvalidBatchSize {
                    batch_size: self.batch_size,
                    max_batch_size: self.max_batch_size,
                },
            );
        }
        if self.max_seq_len == 0 {
            return Err(crate::Error::InvalidMaxSeqLen);
        }
        Ok(())
    }
}

impl Default for BatchOptions {
    fn default() -> (r: Self)
        ensures
            r.holds(2048, 8, 1024),
    {
        Self::new()
    }
}

fn default_intra_threads() -> (r: usize)
    ensures
        r == 1,
{
    1
}

fn default_inter_threads() -> (r: usize)
    ensures
        r == 1,
{
    1
}

fn default_parallel_execution() -> (r: bool)
    ensures
        !r,
{
    false
}

/// Thread-pool configuration of the inference session. Defaults are
/// `1` / `1` / `false`.
#[derive(Clone, Copy, Debug)]
pub struct ThreadOptions {
    intra_threads: usize,
    inter_threads: usize,
    parallel_execution: bool,
}

impl ThreadOptions {
    /// The configured intra-op thread count.
    pub closed spec fn spec_intra_threads(self) -> usize {
        self.intra_threads
    }

    /// The configured inter-op thread count.
    pub closed spec fn spec_inter_threads(self) -> usize {
        self.inter_threads
    }

    /// Whether parallel execution is configured.
    pub closed spec fn spec_parallel_execution(self) -> bool {
        self.parallel_execution
    }

    /// Whether `self` holds exactly the three given values.
    pub open spec fn holds(self, intra: usize, inter: usize, parallel: bool) -> bool {
        &&& self.spec_intra_threads() == intra
        &&& self.spec_inter_threads() == inter
        &&& self.spec_parallel_execution() == parallel
    }

    /// The crate defaults: one intra-op thread, one inter-op thread, parallel
    /// execution off.
    pub fn new() -> (r: Self)
        ensures
            r.holds(1, 1, false),
    {
        ThreadOptions {
            intra_threads: default_intra_threads(),
            inter_threads: default_inter_threads(),
            parallel_execution: default_parallel_execution(),
        }
    }

    /// Intra-op thread count.
    pub fn intra_threads(&self) -> (r: usize)
        ensures
            r == self.spec_intra_threads(),
    {
        self.intra_threads
    }

    /// Inter-op thread count.
    pub fn inter_threads(&self) -> (r: usize)
        ensures
            r == self.spec_inter_threads(),
    {
        self.inter_threads
    }

    /// Whether independent operators run concurrently.
    pub fn parallel_execution(&self) -> (r: bool)
        ensures
            r == self.spec_parallel_execution(),
    {
        self.parallel_execution
    }

    /// A copy with `intra_threads` replaced.
    pub fn with_intra_threads(self, n: usize) -> (r: Self)
        ensures
            r.holds(n, self.spec_inter_threads(), self.spec_parallel_execution()),
    {
        let mut s = self;
        s.intra_threads = n;
        s
    }

    /// A copy with `inter_threads` replaced.
    pub fn with_inter_threads(self, n: usize) -> (r: Self)
        ensures
            r.holds(self.spec_intra_threads(), n, self.spec_parallel_execution()),
    {
        let mut s = self;
        s.inter_threads = n;
        s
    }

    /// A copy with `parallel_execution` replaced.
    pub fn with_parallel_execution(self, p: bool) -> (r: Self)
        ensures
            r.holds(self.spec_intra_threads(), self.spec_inter_threads(), p),
    {
        let mut s = self;
        s.parallel_execution = p;
        s
    }

    /// In-place setter for `intra_threads`; returns `&mut self` for chaining.
    pub fn set_intra_threads(&mut self, n: usize) -> (r: &mut Self)
        ensures
            r.holds(n, old(self).spec_inter_threads(), old(self).spec_parallel_execution()),
            *final(self) == *final(r),
    {
        self.intra_threads = n;
        self
    }

    /// In-place setter for `inter_threads`; returns `&mut self` for chaining.
    pub fn set_inter_threads(&mut self, n: usize) -> (r: &mut Self)
        ensures
            r.holds(old(self).spec_intra_threads(), n, old(self).spec_parallel_execution()),
            *final(self) == *final(r),
    {
        self.inter_threads = n;
        self
    }

    /// In-place setter for `parallel_execution`; returns `&mut self` for
    /// chaining.
    pub fn set_parallel_execution(&mut self, p: bool) -> (r: &mut Self)
        ensures
            r.holds(old(self).spec_intra_threads(), old(self).spec_inter_threads(), p),
            *final(self) == *final(r),
    {
        self.parallel_execution = p;
        self
    }
}

impl Default for ThreadOptions {
    fn default() -> (r: Self)
        ensures
            r.holds(1, 1, false),
    {
        Self::new()
    }
}

/// Top-level encoder configuration: graph-optimization level, batching and
/// threading.
#[derive(Clone, Copy, Debug)]
pub struct Options {
    optimization_level: GraphOptimizationLevel,
    batch: BatchOptions,
    threads: ThreadOptions,
}

impl Options {
    /// The configured optimization level.
    pub closed spec fn spec_optimization_level(self) -> GraphOptimizationLevel {
        self.optimization_level
    }

    /// The configured batching options.
    pub closed spec fn spec_batch(self) -> BatchOptions {
        self.batch
    }

    /// The configured threading options.
    pub closed spec fn spec_threads(self) -> ThreadOptions {
        self.threads
    }

    /// Whether `self` holds exactly the three given parts.
    pub open spec fn holds(
        self,
        level: GraphOptimizationLevel,
        batch: BatchOptions,
        threads: ThreadOptions,
    ) -> bool {
        &&& self.spec_optimization_level() == level
        &&& self.spec_batch() == batch
        &&& self.spec_threads() == threads
    }

    /// The crate defaults: `Level1`, default batching, default threading.
    pub fn new() -> (r: Self)
        ensures
            r.spec_optimization_level() == GraphOptimizationLevel::Level1,
            r.spec_batch().holds(2048, 8, 1024),
            r.spec_threads().holds(1, 1, false),
    {
        Options {
            optimization_level: GraphOptimizationLevel::Level1,
            batch: BatchOptions::new(),
            threads: ThreadOptions::new(),
        }
    }

    /// The graph-optimization level.
    pub fn optimization_level(&self) -> (r: GraphOptimizationLevel)
        ensures
            r == self.spec_optimization_level(),
    {
        self.optimization_level
    }

    /// The batching options.
    pub fn batch(&self) -> (r: BatchOptions)
        ensures
            r == self.spec_batch(),
    {
        self.batch
    }

    /// The threading options.
    pub fn threads(&self) -> (r: ThreadOptions)
        ensures
            r == self.spec_threads(),
    {
        self.threads
    }

    /// A copy with the optimization level replaced.
    pub fn with_optimization_level(self, l: GraphOptimizationLevel) -> (r: Self)
        ensures
            r.holds(l, self.spec_batch(), self.spec_threads()),
    {
        let mut s = self;
        s.optimization_level = l;
        s
    }

    /// A copy with the batching options replaced.
    pub fn with_batch(self, b: BatchOptions) -> (r: Self)
        ensures
            r.holds(self.spec_optimization_level(), b, self.spec_threads()),
    {
        let mut s = self;
        s.batch = b;
        s
    }

    /// A copy with the threading options replaced.
    pub fn with_threads(self, t: ThreadOptions) -> (r: Self)
        ensures
            r.holds(self.spec_optimization_level(), self.spec_batch(), t),
    {
        let mut s = self;
        s.threads = t;
        s
    }

    /// In-place setter for the optimization level; returns `&mut self`.
    pub fn set_optimization_level(&mut self, l: GraphOptimizationLevel) -> (r: &mut Self)
        ensures
            r.holds(l, old(self).spec_batch(), old(self).spec_threads()),
            *final(self) == *final(r),
    {
        self.optimization_level = l;
        self
    }

    /// In-place setter for the batching options; returns `&mut self`.
    pub fn set_batch(&mut self, b: BatchOptions) -> (r: &mut Self)
        ensures
            r.holds(old(self).spec_optimization_level(), b, old(self).spec_threads()),
            *final(self) == *final(r),
    {
        self.batch = b;
        self
    }

    /// In-place setter for the threading options; returns `&mut self`.
    pub fn set_threads(&mut self, t: ThreadOptions) -> (r: &mut Self)
        ensures
            r.holds(old(self).spec_optimization_level(), old(self).spec_batch(), t),
            *final(self) == *final(r),
    {
        self.threads = t;
        self
    }
}

impl Default for Options {
    fn default() -> (r: Self)
        ensures
            r.spec_optimization_level() == GraphOptimizationLevel::Level1,
            r.spec_batch().holds(2048, 8, 1024),
            r.spec_threads().holds(1, 1, false),
    {
        Self::new()
    }
}

} // verus!
