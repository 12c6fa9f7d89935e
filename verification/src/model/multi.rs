//! Routing a completion to a named model provider.

use crate::domain::ModelRequest;
use crate::model::error::ModelError;
use crate::model::registry::{AuthKind, ProviderDescriptor};
use crate::text::views;
use vstd::prelude::*;

verus! {

/// The named providers (the providers themselves run around the library, one per name
/// in the same order), the default name and the descriptors.
#[derive(Debug)]
pub struct MultiModelProvider {
    pub names: Vec<String>,
    pub default: String,
    pub descriptors: Vec<ProviderDescriptor>,
}

/// The provider a request names: its own choice, or the default.
pub open spec fn requested_name(request: ModelRequest, default: Seq<char>) -> Seq<char> {
    match request.provider {
        Some(p) => p@,
        None => default,
    }
}

impl MultiModelProvider {
    pub fn new(default: String, names: Vec<String>, descriptors: Vec<ProviderDescriptor>) -> (r: Self)
        ensures
            r.default == default,
            r.names@ == names@,
            r.descriptors@ == descriptors@,
    {
        MultiModelProvider { names, default, descriptors }
    }

    /// One provider, the default, described as an API-key provider of that name.
    pub fn single(name: &str) -> (r: Self)
        ensures
            views(r.names@) == seq![name@],
            r.default@ == name@,
            r.descriptors@.len() == 1,
            r.descriptors@[0].name@ == name@,
            r.descriptors@[0].auth_kind == AuthKind::ApiKey,
            r.descriptors@[0].display_name@ == name@,
            r.descriptors@[0].default_model@.len() == 0,
            r.descriptors@[0].models@.len() == 0,
            r.descriptors@[0].registered,
            r.descriptors@[0].supports_model_override,
    {
        let mut names: Vec<String> = Vec::new();
        names.push(String::from_str(name));
        assert(views(names@) =~= seq![name@]);
        let mut descriptors: Vec<ProviderDescriptor> = Vec::new();
        descriptors.push(
            ProviderDescriptor {
                name: String::from_str(name),
                auth_kind: AuthKind::ApiKey,
                display_name: String::from_str(name),
                default_model: String::new(),
                models: Vec::new(),
                registered: true,
                supports_model_override: true,
            },
        );
        MultiModelProvider { names, default: String::from_str(name), descriptors }
    }

    pub fn default_provider(&self) -> (r: &str)
        ensures
            r@ == self.default@,
    {
        self.default.as_str()
    }

    pub fn descriptors(&self) -> (r: &[ProviderDescriptor])
        ensures
            r@ == self.descriptors@,
    {
        self.descriptors.as_slice()
    }

    /// The names of the providers.
    pub fn registered_names(&self) -> (r: Vec<String>)
        ensures
            views(r@) == views(self.names@),
    {
        crate::text::clone_strings(&self.names)
    }

    /// The provider (by position) that completes a request: the one it names, or the
    /// default; an unknown name is an error.
    pub fn route(&self, request: &ModelRequest) -> (r: Result<usize, ModelError>)
        ensures
            match r {
                Ok(i) => i < self.names@.len() && self.names@[i as int]@ == requested_name(
                    *request,
                    self.default@,
                ) && forall|j: int| 0 <= j < i ==> self.names@[j]@ != requested_name(*request, self.default@),
                Err(e) => !views(self.names@).contains(requested_name(*request, self.default@))
                    && e.message@ == "unknown model provider '"@ + requested_name(*request, self.default@)
                    + "'"@,
            },
    {
        let name = match &request.provider {
            Some(p) => p.as_str(),
            None => self.default.as_str(),
        };
        let mut i: usize = 0;
        while i < self.names.len()
            invariant
                i <= self.names@.len(),
                name@ == requested_name(*request, self.default@),
                forall|j: int| 0 <= j < i ==> self.names@[j]@ != name@,
            decreases self.names@.len() - i,
        {
            if crate::text::str_eq(self.names[i].as_str(), name) {
                return Ok(i);
            }
            i = i + 1;
        }
        assert forall|j: int| 0 <= j < views(self.names@).len() implies views(self.names@)[j] != name@ by {
            assert(views(self.names@)[j] == self.names@[j]@);
        }
        Err(
            ModelError::new(
                String::from_str("unknown model provider '").concat(name).concat("'"),
            ),
        )
    }
}

} // verus!
