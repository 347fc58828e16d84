# monte_carlo_risk

A Monte Carlo portfolio risk simulator: thousands of future paths of a
stock / bond / cash portfolio through saving and retirement years, summarised
as failure rates, percentile wealth bands, a wealth cone and a histogram.

Layout:

- `src/` is the verified library (Verus). It holds the integer and text
  decisions of the simulator: per-path seeds (`seed`), the run shape and the
  phase of each year (`horizon`), the per-path event tally and the run's
  outcome counts (`tally`), histogram bucket counting (`histogram`), the
  wealth-cone rows and bars and the histogram scale (`layout`), and the
  market regimes (`regime`).
- `app/` is the command-line program: configuration types with their
  serde derives, the floating-point market model driven by `rand` and
  `rand_distr`, parallel runs with `rayon`, and the terminal and JSON output.
- `tests/` exercises the library.
