pub mod telegram;
