//! What the dashboard's components decide: labels, colours, classes and layout grids.
pub mod agent_node_card;
pub mod graph_canvas;
pub mod layout;
pub mod live_gateway;
pub mod navbar;
