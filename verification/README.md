# Stellar Legacy rules

The deterministic simulation rules of a generational starship campaign,
written in Verus: every rule carries a contract, and Verus proves the code
against it.

- Fractions (morale, hull integrity, a chance, a price multiplier) are
  fixed-point integers in millionths (`fixed`).
- Random draws come from a `Rolls` tape that the game fills from its seeded
  generator (`app/`), so every rule is proved for every draw it could read.
- What the crew's officers and the engineering and education bays contribute
  to a year (production multipliers, fuel burn, famine relief, unity
  recovery, fabrication, hull decay, education's morale) reaches the rules as
  a `ShipFactors` value (`economy`) that the caller computes and passes in;
  the rules state what they do for every such value within its bounds.

## Layout

```
src/
  fixed.rs, util.rs, keys.rs, text.rs   arithmetic, strings, lookups by id
  config.rs, data.rs, deltas.rs         the catalog and its balance numbers
  state.rs, rolls.rs                    the campaign state and the draw tape
  queries.rs, effects.rs                reading and changing the state
  market.rs, ship.rs, subsystems.rs     trading, repairs, the ship's modules
  factions.rs, voyage.rs                the peoples aboard, the voyage's drift
  mortality.rs, succession.rs           aging, death and the ruling line
  event_resolver.rs, outcome.rs         rolling events, applying their choices
  legacy.rs, contract.rs, skeleton.rs   dilemmas, charters, the campaign's beats
  economy.rs, beats.rs, tick.rs         the economic year, beats, the month's advance
  autoplay.rs                           a whole mission under a fixed policy
  laws.rs                               properties that span several rules
tests/                                  scenarios on concrete values
app/                                    the game's generator feeding the tape
```
