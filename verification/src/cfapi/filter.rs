pub mod ticket;
