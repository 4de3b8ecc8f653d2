//! Keeps one calendar event per borrowed item.
//!
//! The items that a reader has on loan are read from the page of a lending
//! portal. Each loan gets an identifier that never changes, and one event in
//! a calendar that ends on the day after the item is due. Given the loans and
//! the events that the calendar holds, the crate decides which events have to
//! be created, which have to be replaced and which can stay as they are, and
//! makes what is sent to the calendar for each.
//!
//! - [`day`] holds calendar days.
//! - [`text`] holds operations on text.
//! - [`book`] holds loans, their summaries and their identifiers.
//! - [`calendar`] holds events and tells whether an event shows a loan as it is.
//! - [`reconcile`] decides what has to happen for each loan.
//! - [`outcome`] says what a calendar holds once that has happened, and shows
//!   that nothing is left to do then.
//! - [`submit`] makes what is sent to the calendar.
//! - [`portal`] reads the loans from the portal's page.
//! - [`auth`] makes the signed assertion that is traded for an access token.
//!
//! Nothing in this crate talks to the portal or to the calendar: it takes
//! what was read from them and hands back what is to be sent.

pub mod auth;
pub mod book;
pub mod calendar;
pub mod day;
pub mod outcome;
pub mod portal;
pub mod reconcile;
pub mod submit;
pub mod text;
