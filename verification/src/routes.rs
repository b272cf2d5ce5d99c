//! The routes of the gateway's HTTP interface.

use vstd::prelude::*;

verus! {

/// The HTTP method of a route.
#[derive(PartialEq, Eq, Structural, Clone, Copy, Debug)]
pub enum Method {
    Get,
    Post,
}

/// What a route does.
#[derive(PartialEq, Eq, Structural, Clone, Copy, Debug)]
pub enum Operation {
    /// Search the store for token contracts.
    GetErc20Contracts,
    /// Look up the label of an address.
    GetLabelsFromAddress,
    /// Search the store for transactions by their input.
    GetTransactions,
    /// Apply a node endpoint for a tenant.
    ApplyRpc,
    /// Call functions of a contract.
    CallFunctions,
    /// Backfill a range of blocks.
    GetLogs,
    /// Listen for ERC-20 deployments.
    ListenDeployErc20,
    /// Listen for the events of a contract.
    ListenContractEvents,
}

/// One route: the path it answers on, the method it answers to, and what it
/// does.
#[derive(Clone, Copy, Debug, PartialEq, Eq)]
pub struct Route {
    pub path: &'static str,
    pub method: Method,
    pub operation: Operation,
}

/// No path occurs twice in `routes`.
pub open spec fn paths_are_distinct(routes: Seq<Route>) -> bool {
    forall|i: int, j: int|
        0 <= i < j < routes.len() ==> (#[trigger] routes[i]).path@ != (#[trigger] routes[j]).path@
}

/// The routes onto the document store.
pub struct ElasticController;

/// The routes onto the tenants' nodes.
pub struct EthersController;

impl ElasticController {
    /// The routes onto the document store.
    pub open spec fn table() -> Seq<Route> {
        seq![
            Route {
                path: "elastic/erc20_contracts",
                method: Method::Get,
                operation: Operation::GetErc20Contracts,
            },
            Route {
                path: "elastic/labels_from_address/{address}",
                method: Method::Get,
                operation: Operation::GetLabelsFromAddress,
            },
            Route {
                path: "elastic/transactions",
                method: Method::Get,
                operation: Operation::GetTransactions,
            },
        ]
    }

    /// The controller.
    pub fn new() -> (controller: Self)
        ensures
            controller == ElasticController,
    {
        ElasticController
    }

    /// The routes of the controller.
    pub fn routes(self) -> (routes: Vec<Route>)
        ensures
            routes@ == Self::table(),
            paths_are_distinct(routes@),
    {
        let mut routes: Vec<Route> = Vec::new();
        routes.push(
            Route {
                path: "elastic/erc20_contracts",
                method: Method::Get,
                operation: Operation::GetErc20Contracts,
            },
        );
        routes.push(
            Route {
                path: "elastic/labels_from_address/{address}",
                method: Method::Get,
                operation: Operation::GetLabelsFromAddress,
            },
        );
        routes.push(
            Route {
                path: "elastic/transactions",
                method: Method::Get,
                operation: Operation::GetTransactions,
            },
        );
        assert(routes@ =~= Self::table());
        proof {
            reveal_strlit("elastic/erc20_contracts");
            reveal_strlit("elastic/labels_from_address/{address}");
            reveal_strlit("elastic/transactions");
            assert(routes@[0].path@.len() == 23);
            assert(routes@[1].path@.len() == 37);
            assert(routes@[2].path@.len() == 20);
        }
        routes
    }
}

impl EthersController {
    /// The routes onto the tenants' nodes; `{id}` stands for the tenant.
    pub open spec fn table() -> Seq<Route> {
        seq![
            Route { path: "ethers/{id}/apply_rpc", method: Method::Post, operation: Operation::ApplyRpc },
            Route {
                path: "ethers/{id}/call_functions",
                method: Method::Post,
                operation: Operation::CallFunctions,
            },
            Route { path: "ethers/{id}/get_logs", method: Method::Post, operation: Operation::GetLogs },
            Route {
                path: "ethers/{id}/listen_deploy_erc20",
                method: Method::Post,
                operation: Operation::ListenDeployErc20,
            },
            Route {
                path: "ethers/{id}/listen_contract_events",
                method: Method::Post,
                operation: Operation::ListenContractEvents,
            },
        ]
    }

    /// The controller.
    pub fn new() -> (controller: Self)
        ensures
            controller == EthersController,
    {
        EthersController { }
    }

    /// The routes of the controller.
    pub fn routes(self) -> (routes: Vec<Route>)
        ensures
            routes@ == Self::table(),
            paths_are_distinct(routes@),
    {
        let mut routes: Vec<Route> = Vec::new();
        routes.push(
            Route { path: "ethers/{id}/apply_rpc", method: Method::Post, operation: Operation::ApplyRpc },
        );
        routes.push(
            Route {
                path: "ethers/{id}/call_functions",
                method: Method::Post,
                operation: Operation::CallFunctions,
            },
        );
        routes.push(
            Route { path: "ethers/{id}/get_logs", method: Method::Post, operation: Operation::GetLogs },
        );
        routes.push(
            Route {
                path: "ethers/{id}/listen_deploy_erc20",
                method: Method::Post,
                operation: Operation::ListenDeployErc20,
            },
        );
        routes.push(
            Route {
                path: "ethers/{id}/listen_contract_events",
                method: Method::Post,
                operation: Operation::ListenContractEvents,
            },
        );
        assert(routes@ =~= Self::table());
        proof {
            reveal_strlit("ethers/{id}/apply_rpc");
            reveal_strlit("ethers/{id}/call_functions");
            reveal_strlit("ethers/{id}/get_logs");
            reveal_strlit("ethers/{id}/listen_deploy_erc20");
            reveal_strlit("ethers/{id}/listen_contract_events");
            assert(routes@[0].path@.len() == 21);
            assert(routes@[1].path@.len() == 26);
            assert(routes@[2].path@.len() == 20);
            assert(routes@[3].path@.len() == 31);
            assert(routes@[4].path@.len() == 34);
        }
        routes
    }
}

} // verus!
