pub mod new;
pub mod check;
pub mod info;
pub mod invalidate;
pub mod reply;
