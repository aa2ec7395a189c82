pub mod injector;
pub mod scheduler;
