//! The builder of a [`ToolCache`]: every field optional, and one resolution
//! step that fills the unset ones from host-derived defaults.

use vstd::prelude::*;

use crate::arch::ToolCacheArch;
use crate::cache::{ToolCache, RETRY_COUNT};
use crate::platform::ToolPlatform;
use crate::strutil::opt_view;

verus! {

/// The mathematical value of a [`ToolCacheBuilder`]: what has been set.
#[verifier::ext_equal]
pub struct ToolCacheBuilderView {
    /// The cache root, if set.
    pub tool_cache: Option<Seq<char>>,
    /// The architecture, if set.
    pub arch: Option<ToolCacheArch>,
    /// The platform, if set.
    pub platform: Option<ToolPlatform>,
    /// The retry budget, if set.
    pub retry_count: Option<u8>,
}

/// A fluent configuration of a [`ToolCache`].  Fields left unset are filled
/// by [`ToolCacheBuilder::build`] from a store of host-derived defaults, in
/// the same way direct construction would fill them.
#[derive(Debug, Clone)]
pub struct ToolCacheBuilder {
    tool_cache: Option<String>,
    arch: Option<ToolCacheArch>,
    platform: Option<ToolPlatform>,
    retry_count: Option<u8>,
}

impl View for ToolCacheBuilder {
    type V = ToolCacheBuilderView;

    closed spec fn view(&self) -> ToolCacheBuilderView {
        ToolCacheBuilderView {
            tool_cache: opt_view(self.tool_cache),
            arch: self.arch,
            platform: self.platform,
            retry_count: self.retry_count,
        }
    }
}

impl ToolCacheBuilder {
    /// A builder with nothing set.
    pub fn new() -> (r: ToolCacheBuilder)
        ensures
            r@ == (ToolCacheBuilderView {
                tool_cache: None,
                arch: None,
                platform: None,
                retry_count: None,
            }),
    {
        ToolCacheBuilder { tool_cache: None, arch: None, platform: None, retry_count: None }
    }

    /// Set the path of the tool cache directory.
    pub fn tool_cache(self, path: String) -> (r: ToolCacheBuilder)
        ensures
            r@ == (ToolCacheBuilderView { tool_cache: Some(path@), ..self@ }),
    {
        ToolCacheBuilder { tool_cache: Some(path), ..self }
    }

    /// Set the architecture of the tool cache.
    pub fn arch(self, arch: ToolCacheArch) -> (r: ToolCacheBuilder)
        ensures
            r@ == (ToolCacheBuilderView { arch: Some(arch), ..self@ }),
    {
        ToolCacheBuilder { arch: Some(arch), ..self }
    }

    /// Set the platform of the tool cache.
    pub fn platform(self, platform: ToolPlatform) -> (r: ToolCacheBuilder)
        ensures
            r@ == (ToolCacheBuilderView { platform: Some(platform), ..self@ }),
    {
        ToolCacheBuilder { platform: Some(platform), ..self }
    }

    /// Set the number of retry attempts for downloads.
    pub fn retry_count(self, count: u8) -> (r: ToolCacheBuilder)
        ensures
            r@ == (ToolCacheBuilderView { retry_count: Some(count), ..self@ }),
    {
        ToolCacheBuilder { retry_count: Some(count), ..self }
    }

    /// Build the tool cache: every set field is kept, every unset one comes
    /// from the given store of host-derived defaults, and an unset retry
    /// budget is the default budget.
    pub fn build(&self, defaults: &ToolCache) -> (r: ToolCache)
        ensures
            r@.tool_cache == (match self@.tool_cache {
                Some(p) => p,
                None => defaults@.tool_cache,
            }),
            r@.arch == (match self@.arch {
                Some(a) => a,
                None => defaults@.arch,
            }),
            r@.platform == (match self@.platform {
                Some(p) => p,
                None => defaults@.platform,
            }),
            r@.retry_count == (match self@.retry_count {
                Some(c) => c,
                None => RETRY_COUNT,
            }),
    {
        let root = match &self.tool_cache {
            Some(p) => p.clone(),
            None => defaults.get_tool_cache().clone(),
        };
        let arch = match &self.arch {
            Some(a) => *a,
            None => defaults.arch(),
        };
        let platform = match &self.platform {
            Some(p) => *p,
            None => defaults.platform(),
        };
        let mut cache = ToolCache::new(root, arch, platform);
        match &self.retry_count {
            Some(c) => {
                cache.set_retry_count(*c);
            },
            None => {},
        }
        cache
    }
}

} // verus!
