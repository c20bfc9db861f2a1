# isis

The bookkeeping layer of the ISIS craft minds, written in Verus and proved
against its contracts:

- `src/sensors.rs`: the per-craft indices of steering routines, strategies
  and weapons (entity to kind, kind to entities) and the cross-reference
  index used when attached entities despawn; the laws that filing and
  unfiling keep both directions of an index in agreement.
- `src/flock.rs`, `src/formation.rs`: flock membership with change logs,
  the change events, and the formation slots that follow them.
- `src/directives.rs`: which strategy a boid or flock directive calls for,
  and which members a flock strategy re-directs.
- `src/compose.rs`: which routines a composer runs, which routine output a
  composition takes, and which routines a composing routine (de)activates.
- `src/input.rs`: the free camera's key events and the player craft's
  engine keys, as integer axes.
- `src/collision.rs`, `src/tags.rs`: collision group masks and tag
  components.
- `src/idmap.rs`, `src/svec.rs`: the hash maps of `bevy::utils` and the
  `SmallVec`s of `smallvec` that the indices keep, behind trusted wrappers.

`app/` is the unverified shell: the bevy systems that hand the library
entity ids and key states, and the floating-point parts (angles, PID
controller, attire damage) that the library does not hold.
