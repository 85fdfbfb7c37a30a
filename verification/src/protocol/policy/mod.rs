pub mod pipes;
pub mod priolist;
pub mod with_fair_queue;
