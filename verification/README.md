# devwizard

The logic of the BakeryOS developer setup wizard, verified with Verus, and the GTK
application around it.

`src/` is the library:

- `package_info`: the catalogue model (packages, groups, install steps).
- `package_service`: the command each install step runs, how the outcome of a command is
  reported, and the step-by-step installation of a package (`install_pkg`).
- `search`: the search page: trimming, splitting the query into words, matching, scoring and
  ordering the results.
- `selection`: the set of selected packages and how the events of cards and of the install
  window change it.
- `install`: the install windows' runs over the selected packages, as state machines
  (`InstallSession`, and `PlainInstallRun`, which counts failures).
- `catalog`: which section each card goes to, and which packages the install button installs.
- `card`: a package card's state and button.
- `event`: the events exchanged between the windows.
- `text`: the text functions the rest uses (white space, trimming, words, substring search,
  ordering, decimal numbers).

`app/` holds the GTK windows, reading the package list, and running commands.
`tests/` runs the library on concrete values.
