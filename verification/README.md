# multihawk

Simulation of multivariate Hawkes processes with time-varying baselines,
exposed to Python.

- `src/` is the verified library (Verus):
  - `names.rs`: the sampling methods and the baseline and kernel families,
    and the functions that read their names;
  - `shape.rs`: the matrix shape checks of the simulator;
  - `pcg_state.rs`: the byte layout of a 128-bit PCG state and the functions
    that read the state of a PCG64 / PCG64-DXSM generator, rebuild one, and
    draw words from one.
- `app/` is the Python extension module: the floating-point baselines,
  kernels and branching simulation, and the pyo3 bindings.
- `tests/` runs the library.
