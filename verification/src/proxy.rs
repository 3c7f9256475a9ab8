pub mod haproxy;
