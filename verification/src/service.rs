//! The service as a whole: valid settings and a consistent store.
use vstd::prelude::*;
use vstd::string::*;
use crate::config::Config;
use crate::error::AppError;
use crate::store::Store;

verus! {

/// A running service: its settings and its store.
pub struct Service {
    config: Config,
    store: Store,
}

impl Service {
    /// The settings the service runs on.
    pub closed spec fn config(&self) -> Config {
        self.config
    }

    /// The store of the service.
    pub closed spec fn store(&self) -> Store {
        self.store
    }

    /// The settings are valid and the store is consistent.
    pub open spec fn wf(&self) -> bool {
        self.config().valid() && self.store().wf()
    }

    /// A service on the settings `config` and the store `store`. Settings
    /// that are not valid are refused.
    pub fn new(config: Config, store: Store) -> (r: Result<Service, AppError>)
        requires
            store.wf(),
        ensures
            r is Ok <==> config.valid(),
            r matches Ok(service) ==> service.wf() && service.config() == config && service.store()
                == store,
            r matches Err(e) ==> e is ConfigParseError,
    {
        if !config.check() {
            return Err(
                AppError::ConfigParseError(
                    String::from_str("expiry bounds or file size ceiling out of range"),
                ),
            );
        }
        Ok(Service { config, store })
    }

    /// The store of the service.
    pub fn store_ref(&self) -> (store: &Store)
        ensures
            *store == self.store(),
    {
        &self.store
    }

    /// The store of the service, to change it.
    pub(crate) fn store_mut(&mut self) -> (store: &mut Store)
        ensures
            *store == old(self).store(),
            final(self).store() == *final(store),
            final(self).config() == old(self).config(),
    {
        &mut self.store
    }
}

/// The settings the service runs on.
pub fn conf(service: &Service) -> (config: &Config)
    ensures
        *config == service.config(),
{
    &service.config
}

} // verus!
