//! Turns a GUI agent model's free-form answer into typed input commands.
//!
//! `action_parser` recovers reasoning and generic calls from the model text,
//! `action` builds validated input commands from a generic call and plans
//! the low-level input events that carry each command out, `number` reads
//! the numbers that parameters carry, `input_control` covers single
//! controller steps, `call_ai` the chat call's prompt and reply, and
//! `image_utils` the screenshot URL.

pub mod action;
pub mod action_parser;
pub mod call_ai;
pub mod error;
pub mod image_utils;
pub mod input_control;
pub mod number;
pub mod text;
