//! Why a run ends before its time.

use crate::config::ContractDefinition;
use vstd::prelude::*;
use vstd::string::StringExecFns;

verus! {

/// The services whose end ends the run.
#[derive(Debug, Clone, Copy, PartialEq, Eq, Structural)]
pub enum Service {
    /// Fetches and processes events.
    Engine,
    /// Writes to the database.
    Executor,
}

/// Why a run ends with an error.
#[derive(Debug)]
pub enum RunError {
    /// The provider follows a version of the RPC specification that is not supported.
    UnsupportedSpec(String),
    /// Contracts that are to be indexed are not deployed.
    ContractsNotDeployed(Vec<ContractDefinition>),
    /// Activity is to be tracked, but transactions are not indexed.
    ActivityWithoutTransactions,
    /// A tag in the list of historical models is not a tag.
    InvalidModelTag(String),
    /// A service ended with an error.
    ServiceFailed(Service, String),
    /// A service panicked.
    ServicePanicked(Service, String),
}

/// The version of the RPC specification that is supported.
pub open spec fn supported_spec() -> Seq<char> {
    "0.9"@
}

impl Service {
    /// The name of a service.
    pub open spec fn spec_name(self) -> Seq<char> {
        match self {
            Service::Engine => "Engine"@,
            Service::Executor => "Executor"@,
        }
    }

    /// The name of a service.
    pub fn name(&self) -> (name: &'static str)
        ensures
            name@ == self.spec_name(),
    {
        match self {
            Service::Engine => "Engine",
            Service::Executor => "Executor",
        }
    }
}

impl RunError {
    /// The text of an error. The text on contracts ends where their list follows.
    pub open spec fn text(self) -> Seq<char> {
        match self {
            RunError::UnsupportedSpec(got) => "Provider spec version is not supported. Please use a provider that supports v"@
                + supported_spec() + ". Got: "@ + got@
                + ". You might need to add a `rpc/v0_9` to the end of the URL."@,
            RunError::ContractsNotDeployed(_) => "The following contracts are not deployed: "@,
            RunError::ActivityWithoutTransactions => "Activity tracking is enabled but transaction indexing is disabled. Activity tracking requires transaction data to function. Please enable transaction indexing with --indexing.transactions or disable activity tracking with --activity.enabled=false"@,
            RunError::InvalidModelTag(tag) => "Invalid model tag: "@ + tag@,
            RunError::ServiceFailed(service, reason) => service.spec_name() + " failed: "@ + reason@,
            RunError::ServicePanicked(service, reason) => service.spec_name()
                + " task panicked: "@ + reason@,
        }
    }

    /// The text of an error. The text on contracts ends where their list follows.
    pub fn message(&self) -> (message: String)
        ensures
            message@ == self.text(),
    {
        match self {
            RunError::UnsupportedSpec(got) => {
                let mut message: String = String::from_str(
                    "Provider spec version is not supported. Please use a provider that supports v",
                );
                message.append("0.9");
                message.append(". Got: ");
                message.append(got.as_str());
                message.append(". You might need to add a `rpc/v0_9` to the end of the URL.");
                message
            },
            RunError::ContractsNotDeployed(_) => String::from_str(
                "The following contracts are not deployed: ",
            ),
            RunError::ActivityWithoutTransactions => String::from_str(
                "Activity tracking is enabled but transaction indexing is disabled. Activity tracking requires transaction data to function. Please enable transaction indexing with --indexing.transactions or disable activity tracking with --activity.enabled=false",
            ),
            RunError::InvalidModelTag(tag) => {
                let mut message: String = String::from_str("Invalid model tag: ");
                message.append(tag.as_str());
                message
            },
            RunError::ServiceFailed(service, reason) => {
                let mut message: String = String::from_str(service.name());
                message.append(" failed: ");
                message.append(reason.as_str());
                message
            },
            RunError::ServicePanicked(service, reason) => {
                let mut message: String = String::from_str(service.name());
                message.append(" task panicked: ");
                message.append(reason.as_str());
                message
            },
        }
    }
}

/// What an error says: the version that was got, the tag that is none, or the service and its
/// reason stand in the text.
pub proof fn law_messages_name_the_cause(error: RunError, message: String)
    requires
        call_ensures(RunError::message, (&error,), message),
    ensures
        error matches RunError::UnsupportedSpec(got) ==> message@
            == "Provider spec version is not supported. Please use a provider that supports v"@
            + "0.9"@ + ". Got: "@ + got@
            + ". You might need to add a `rpc/v0_9` to the end of the URL."@,
        error is ContractsNotDeployed ==> message@ == "The following contracts are not deployed: "@,
        error is ActivityWithoutTransactions ==> message@
            == "Activity tracking is enabled but transaction indexing is disabled. Activity tracking requires transaction data to function. Please enable transaction indexing with --indexing.transactions or disable activity tracking with --activity.enabled=false"@,
        error matches RunError::InvalidModelTag(tag) ==> message@ == "Invalid model tag: "@ + tag@,
        error matches RunError::ServiceFailed(Service::Engine, reason) ==> message@ == "Engine"@
            + " failed: "@ + reason@,
        error matches RunError::ServiceFailed(Service::Executor, reason) ==> message@
            == "Executor"@ + " failed: "@ + reason@,
        error matches RunError::ServicePanicked(Service::Engine, reason) ==> message@
            == "Engine"@ + " task panicked: "@ + reason@,
        error matches RunError::ServicePanicked(Service::Executor, reason) ==> message@
            == "Executor"@ + " task panicked: "@ + reason@,
{
}

/// The two services have different names.
pub proof fn law_services_have_names(service: Service, name: &'static str)
    requires
        call_ensures(Service::name, (&service,), name),
    ensures
        service is Engine <==> name@ == "Engine"@,
        service is Executor <==> name@ == "Executor"@,
{
    reveal_strlit("Engine");
    reveal_strlit("Executor");
    assert("Engine"@.len() != "Executor"@.len());
}

} // verus!
