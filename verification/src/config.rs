//! Forward specifications: which local port leads to which port of which pod.

use std::sync::Arc;
use vstd::prelude::*;

verus! {

/// What a forward specification says, as plain mathematical values.
pub struct ForwardSpec {
    pub context: Seq<char>,
    pub pod: Seq<char>,
    pub namespace: Seq<char>,
    pub pod_port: u16,
    pub local_port: u16,
}

/// One configured mapping from a local port to a port of a pod.
#[derive(Clone, Debug, PartialEq, Eq)]
pub struct InnerConfig {
    /// Name of the kubeconfig context whose cluster holds the pod.
    pub context: String,
    pub pod: String,
    pub namespace: String,
    pub pod_port: u16,
    pub local_port: u16,
}

impl View for InnerConfig {
    type V = ForwardSpec;

    open spec fn view(&self) -> ForwardSpec {
        ForwardSpec {
            context: self.context@,
            pod: self.pod@,
            namespace: self.namespace@,
            pod_port: self.pod_port,
            local_port: self.local_port,
        }
    }
}

/// A forward specification that is cheap to hand to many tasks.
#[derive(Clone, Debug, PartialEq, Eq)]
pub struct Config(pub Arc<InnerConfig>);

impl View for Config {
    type V = ForwardSpec;

    open spec fn view(&self) -> ForwardSpec {
        self.0@
    }
}

impl DeepView for Config {
    type V = ForwardSpec;

    open spec fn deep_view(&self) -> ForwardSpec {
        self@
    }
}

impl From<InnerConfig> for Config {
    /// Shares a forward as it stands.
    fn from(config: InnerConfig) -> (shared: Self) {
        Self(Arc::new(config))
    }
}

impl vstd::std_specs::convert::FromSpecImpl<InnerConfig> for Config {
    open spec fn obeys_from_spec() -> bool {
        true
    }

    open spec fn from_spec(config: InnerConfig) -> Config {
        Config(Arc::new(config))
    }
}

/// The key under which a forward is shown: namespace, a slash, pod name.
pub open spec fn podspec_of(spec: ForwardSpec) -> Seq<char> {
    spec.namespace + seq!['/'] + spec.pod
}

impl Config {
    /// The key under which this forward is shown.
    pub fn podspec(&self) -> (key: String)
        ensures
            key@ == podspec_of(self@),
    {
        proof {
            reveal_strlit("/");
        }
        let mut key = self.0.namespace.clone();
        key.append("/");
        key.append(self.0.pod.as_str());
        key
    }
}

/// The forwards that are built into the library: none. The embedding program
/// supplies its own.
pub fn load() -> (configs: Vec<Config>)
    ensures
        configs@.len() == 0,
{
    Vec::new()
}

} // verus!
