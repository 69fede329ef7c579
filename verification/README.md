# ctrl_freeq

Quantum gate and pulse design by optimal control: the parts of the problem that are logic rather than
floating-point numerics, written in Verus and proved against their contracts.

## Layout

- `src/` - the verified library.
  - `config` - the JSON schema's enumerations and name tables, the target map, and every configuration check
    (`validate`, `check`) over a plain-value view of a configuration (`ConfigFacts`).
  - `basis` - basis and envelope names, coefficient and column counts, and the initial coefficients.
  - `hamiltonian` - model names, coupling forms, which model a configuration describes, and the layout of each
    model's default configuration.
  - `linalg` - a row-major matrix generic over its entries, with the shape checks.
  - `optim` - the optimiser registry, the stop rule and what a finished run returns.
  - `edit` - edits that keep a configuration consistent: per-qubit lists, square couplings, targets matching the
    initial states.
  - `session`, `view`, `platform` - the run panel's state machine, the results area's choices, and a chosen file
    waiting to be read.
  - `analysis`, `text`, `error` - plotted components, sentence building, and the error type.
- `app/` - ordinary Rust around the library: the JSON configuration with serde, the physical values of the
  defaults, the floating-point edits, and the optimiser plumbing.
- `tests/` - tests of the library on concrete values.
