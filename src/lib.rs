//! Static analysis of a web application's controllers.
//!
//! A parsed source unit is classified into controllers, concerns and helper
//! modules ([`classify`]); each method body is profiled for the request
//! parameters, headers, instance variables, local variables and calls that it
//! shows ([`params`]); and a registry of every declaration resolves, for an
//! endpoint, the methods a controller sees through its ancestry and mixins
//! and the parameters that serving the endpoint touches ([`types`],
//! [`routes`]).
pub mod classify;
pub mod params;
pub mod routes;
pub mod syntax;
pub mod types;
pub mod utils;
pub mod views;

pub use classify::{parse_class, parse_file, ClassifyError, Declaration};
pub use params::{create_method_details, parse_send, MethodDetails, SendTypes};
pub use routes::{parse_routes, Request, RequestMethod};
pub use syntax::Node;
pub use types::{ActionKinds, AppData, Concern, Controller, HelperModule, ResponseView, ViewType};
pub use views::{parse_jbuilder, parse_jbuilder_nodes};
pub use vstd::hash_map::StringHashMap;
pub use utils::{get_node_name, parse_name, parse_node_str, parse_optional_name, parse_superclass};
