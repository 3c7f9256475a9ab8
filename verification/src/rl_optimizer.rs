pub mod route_optimizer;
