//! Spatial core of a tiled planet surface: positions with tile/subtile carry,
//! the bounded world map, the per-tick spatial index, tile streaming around a
//! viewpoint and projection of positions into viewpoint-relative offsets.
//!
//! All lengths are fixed-point integers. A tile is divided into
//! `SUBTILE_UNITS` subtile units, and a world length is counted in units of
//! which `SUBTILE_UNITS` make one world unit. Entities are named by the
//! handles of the engine, which the library carries and compares but never
//! opens.
//!
//! One tick of a [`session::Session`] runs the phases in their order:
//! [`location`] moves and normalizes, [`table`] files the entities under
//! their tiles, [`streaming`] unloads and plans around the viewpoint on the
//! [`map`], and [`projection`] places everything relative to the viewpoint.
//! [`crew`] keeps the roles of the mobile entities, [`input`] turns held
//! keys into a velocity, and [`animation`] picks sprite frames.

pub mod units;
pub mod location;
pub mod map;
pub mod table;
pub mod streaming;
pub mod projection;
pub mod crew;
pub mod input;
pub mod animation;
pub mod entity;
pub mod session;
