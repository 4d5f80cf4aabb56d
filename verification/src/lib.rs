//! Raffle orchestration for a streaming giveaway: a deduplicated participant
//! registry fed from chat, interval-based raffle scheduling with a pre-raffle
//! announcement, a two-phase win-confirmation handshake with an external
//! spinner display, and the planning of the winner's payout transaction.

pub mod account;
pub mod amount;
pub mod chat;
pub mod latest_chat_messages;
pub mod logic;
pub mod overlay;
pub mod participants;
pub mod participants_file;
pub mod prize_sender;
pub mod raffle_runner;
pub mod registered_viewers;
pub mod strings;
pub mod timing;
pub mod upcoming_raffle_announcement;
