# bridge_ledger

The reserve ledger of a bridge between Goldcoin, Solana and Robinhood: the books
of the three reserves, the state machine of every bridge request, the Goldcoin
vault with its splits, payouts and refunds, and the proposals, findings and
audit records around them.

`src/` is the library, verified with Verus. A `Ledger` holds the tables as plain
values. Every operation is stated as a step from one `LedgerView` to the next:
it either does all of what its contract says or refuses and leaves the ledger as
it was. What a wallet's history or a burst rule found is handed in.

| module | holds |
| --- | --- |
| `types`, `rows`, `error` | the vocabularies, the rows of the tables, the refusals |
| `table`, `json` | searches, sums and orders over rows; lists of texts as stored |
| `ledger`, `reserves`, `admission` | the tables, the books of the reserves, the admission decision |
| `requests`, `finality`, `settlement`, `request_laws` | reservations, deposits, releases, and what holds over several steps |
| `folds`, `reasons`, `resume`, `holds`, `review_text` | Solana deposits, parked requests and their way back |
| `solana_refund`, `refund_text`, `goldcoin_refund`, `goldcoin_refund_steps` | refunds on both chains |
| `vault`, `coins`, `splits`, `payouts`, `payout_steps` | the Goldcoin vault |
| `in_flight`, `chain`, `queries`, `route_rows` | what is under way, what was indexed, what is shown |
| `approvals`, `rebalances`, `custody`, `audit` | proposals, approvals and records |

Public proof functions whose names begin with `law_` state what holds of the
ledger as a whole.

`app/` keeps the ledger in a SQLite database: it loads the tables, lets the
library decide, and writes them back in one transaction. `tests/` runs the
library on concrete ledgers.
