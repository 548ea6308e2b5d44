//! CafeBot: the rules, games and message texts of a small Discord bot.
//!
//! The library holds everything that decides or computes: the blackjack and
//! tic-tac-toe engines, the economy (wallets, the server pool, the daily
//! streak, the shop and the scratch-off tickets), the text transformations,
//! custom commands and their pipes, the help pages, subreddit links, the reading
//! of xkcd's and Wikipedia's answers, and the replies that the commands send.
//! Talking to Discord, to the database and to web services is left to the
//! program that uses it.

pub mod text;
pub mod message_change;
pub mod random;
pub mod rps;
pub mod actions;
pub mod cards;
pub mod blackjack;
pub mod tictactoe;
pub mod economy;
pub mod daily;
pub mod shop;
pub mod scratchoff;
pub mod help;
pub mod custom;
pub mod command_table;
pub mod reddit;
pub mod admin;
pub mod lookup;
pub mod fun;
pub mod dice;
pub mod reports;
